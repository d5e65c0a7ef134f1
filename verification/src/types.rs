//! Scalar domain types shared by every layer: Kleene truth values, event-time
//! and durations, confidence and weights, severities, scope types and scope
//! identifiers, and the closed action-kind set.
use vstd::prelude::*;

verus! {

// ───────────────────────────── T3 (Kleene logic) ─────────────────────────────

/// Three-valued truth (`True` / `False` / `Unknown`); `Unknown` is never
/// collapsed to `False`.
#[derive(Debug, Clone, Copy, PartialEq, Eq, Structural)]
pub enum T3 {
    /// Definitely true.
    True,
    /// Definitely false.
    False,
    /// Not knowable from the available facts.
    Unknown,
}

/// Kleene conjunction: `False` absorbs, `True` is the unit.
pub open spec fn kleene_and(a: T3, b: T3) -> T3 {
    if a == T3::False || b == T3::False {
        T3::False
    } else if a == T3::True && b == T3::True {
        T3::True
    } else {
        T3::Unknown
    }
}

/// Kleene disjunction: `True` absorbs, `False` is the unit.
pub open spec fn kleene_or(a: T3, b: T3) -> T3 {
    if a == T3::True || b == T3::True {
        T3::True
    } else if a == T3::False && b == T3::False {
        T3::False
    } else {
        T3::Unknown
    }
}

/// Kleene negation: swaps `True`/`False`, keeps `Unknown`.
pub open spec fn kleene_not(a: T3) -> T3 {
    match a {
        T3::True => T3::False,
        T3::False => T3::True,
        T3::Unknown => T3::Unknown,
    }
}

/// The `T3` a boolean lifts to.
pub open spec fn t3_of(b: bool) -> T3 {
    if b {
        T3::True
    } else {
        T3::False
    }
}

impl T3 {
    /// Lifts a boolean (`true → True`, `false → False`).
    pub fn from_bool(b: bool) -> (t: T3)
        ensures
            t == t3_of(b),
    {
        if b {
            T3::True
        } else {
            T3::False
        }
    }

    /// Kleene conjunction.
    pub fn and(self, other: T3) -> (t: T3)
        ensures
            t == kleene_and(self, other),
    {
        match (self, other) {
            (T3::False, _) | (_, T3::False) => T3::False,
            (T3::True, T3::True) => T3::True,
            _ => T3::Unknown,
        }
    }

    /// Kleene disjunction.
    pub fn or(self, other: T3) -> (t: T3)
        ensures
            t == kleene_or(self, other),
    {
        match (self, other) {
            (T3::True, _) | (_, T3::True) => T3::True,
            (T3::False, T3::False) => T3::False,
            _ => T3::Unknown,
        }
    }

    /// Kleene negation.
    pub fn not(self) -> (t: T3)
        ensures
            t == kleene_not(self),
    {
        match self {
            T3::True => T3::False,
            T3::False => T3::True,
            T3::Unknown => T3::Unknown,
        }
    }

    /// Whether this is `True`.
    pub fn is_true(&self) -> (b: bool)
        ensures
            b == (*self == T3::True),
    {
        matches!(self, T3::True)
    }

    /// Whether this is `False`.
    pub fn is_false(&self) -> (b: bool)
        ensures
            b == (*self == T3::False),
    {
        matches!(self, T3::False)
    }

    /// Whether this is `Unknown`.
    pub fn is_unknown(&self) -> (b: bool)
        ensures
            b == (*self == T3::Unknown),
    {
        matches!(self, T3::Unknown)
    }
}

/// Kleene conjunction and disjunction are commutative and associative, and
/// De Morgan's laws hold; negation is an involution.
pub proof fn lemma_kleene_algebra(a: T3, b: T3, c: T3)
    ensures
        kleene_and(a, b) == kleene_and(b, a),
        kleene_or(a, b) == kleene_or(b, a),
        kleene_and(kleene_and(a, b), c) == kleene_and(a, kleene_and(b, c)),
        kleene_or(kleene_or(a, b), c) == kleene_or(a, kleene_or(b, c)),
        kleene_not(kleene_and(a, b)) == kleene_or(kleene_not(a), kleene_not(b)),
        kleene_not(kleene_or(a, b)) == kleene_and(kleene_not(a), kleene_not(b)),
        kleene_not(kleene_not(a)) == a,
{
}

/// On definite values Kleene logic agrees with boolean logic, and `Unknown`
/// never turns into a definite value unless the other operand decides it:
/// `False ∧ x = False`, `True ∨ x = True`, `Unknown ∧ True = Unknown`.
pub proof fn lemma_kleene_extends_bool(p: bool, q: bool, x: T3)
    ensures
        kleene_and(t3_of(p), t3_of(q)) == t3_of(p && q),
        kleene_or(t3_of(p), t3_of(q)) == t3_of(p || q),
        kleene_not(t3_of(p)) == t3_of(!p),
        kleene_and(T3::False, x) == T3::False,
        kleene_or(T3::True, x) == T3::True,
        kleene_and(T3::Unknown, T3::True) == T3::Unknown,
        kleene_or(T3::Unknown, T3::False) == T3::Unknown,
{
}


// ─────────────────────────── time and durations ────────────────────────────

/// Clamps a mathematical integer into the `i64` range.
pub open spec fn clamp_i64(x: int) -> i64 {
    if x > i64::MAX {
        i64::MAX
    } else if x < i64::MIN {
        i64::MIN
    } else {
        x as i64
    }
}

/// A non-negative duration in milliseconds.
#[derive(Debug, Clone, Copy, PartialEq, Eq, Structural)]
pub struct DurationMs {
    ms: i64,
}

impl DurationMs {
    #[verifier::type_invariant]
    spec fn non_negative(self) -> bool {
        self.ms >= 0
    }

    /// The duration in milliseconds.
    pub closed spec fn ms_of(self) -> int {
        self.ms as int
    }

    /// `Some` for `ms >= 0`, `None` for negative inputs.
    pub fn from_millis(ms: i64) -> (d: Option<DurationMs>)
        ensures
            ms >= 0 <==> d is Some,
            d matches Some(d) ==> d.ms_of() == ms,
    {
        if ms >= 0 {
            Some(DurationMs { ms })
        } else {
            None
        }
    }

    /// The zero duration.
    pub fn zero() -> (d: DurationMs)
        ensures
            d.ms_of() == 0,
    {
        DurationMs { ms: 0 }
    }

    /// The duration in milliseconds (never negative).
    pub fn millis(&self) -> (ms: i64)
        ensures
            ms == self.ms_of(),
            ms >= 0,
    {
        proof {
            use_type_invariant(self);
        }
        self.ms
    }

    /// The longer of two durations.
    pub fn max(self, other: DurationMs) -> (d: DurationMs)
        ensures
            d.ms_of() == if self.ms_of() >= other.ms_of() {
                self.ms_of()
            } else {
                other.ms_of()
            },
    {
        if self.ms >= other.ms {
            self
        } else {
            other
        }
    }
}

/// An event-time instant in milliseconds.
#[derive(Debug, Clone, Copy, PartialEq, Eq, Structural)]
pub struct EventTime {
    /// Milliseconds since the stream epoch.
    pub ms: i64,
}

impl EventTime {
    /// Wraps a millisecond timestamp.
    pub fn from_millis(ms: i64) -> (t: EventTime)
        ensures
            t.ms == ms,
    {
        EventTime { ms }
    }

    /// The timestamp in milliseconds.
    pub fn millis(&self) -> (ms: i64)
        ensures
            ms == self.ms,
    {
        self.ms
    }

    /// `self + d`, saturating at `i64::MAX`.
    pub fn add(self, d: DurationMs) -> (t: EventTime)
        ensures
            t.ms == clamp_i64(self.ms + d.ms_of()),
    {
        let dm = d.millis();
        match self.ms.checked_add(dm) {
            Some(v) => EventTime { ms: v },
            None => EventTime { ms: i64::MAX },
        }
    }

    /// `self - d`, saturating at `i64::MIN`.
    pub fn sub(self, d: DurationMs) -> (t: EventTime)
        ensures
            t.ms == clamp_i64(self.ms - d.ms_of()),
    {
        let dm = d.millis();
        match self.ms.checked_sub(dm) {
            Some(v) => EventTime { ms: v },
            None => EventTime { ms: i64::MIN },
        }
    }
}

/// Engine-assigned event identifier.
#[derive(Debug, Clone, Copy, PartialEq, Eq, Structural)]
pub struct EventId {
    /// Raw id.
    pub id: u64,
}

impl EventId {
    /// Wraps a raw id.
    pub fn new(id: u64) -> (e: EventId)
        ensures
            e.id == id,
    {
        EventId { id }
    }

    /// The raw id.
    pub fn raw(&self) -> (id: u64)
        ensures
            id == self.id,
    {
        self.id
    }
}

/// Engine-assigned graph-node identifier.
#[derive(Debug, Clone, Copy, PartialEq, Eq, Structural)]
pub struct NodeId {
    /// Raw id.
    pub id: u64,
}

impl NodeId {
    /// Wraps a raw id.
    pub fn new(id: u64) -> (n: NodeId)
        ensures
            n.id == id,
    {
        NodeId { id }
    }

    /// The raw id.
    pub fn raw(&self) -> (id: u64)
        ensures
            id == self.id,
    {
        self.id
    }
}

// ─────────────────────────── confidence / weight ───────────────────────────

/// Lower bound of the `Probable` confidence band.
pub const PROBABLE_THRESHOLD: u8 = 40;

/// Lower bound of the `Confirmed` confidence band.
pub const CONFIRMED_THRESHOLD: u8 = 80;

/// Clamps an integer into `0..=100`.
pub open spec fn clamp_confidence(x: int) -> int {
    if x < 0 {
        0
    } else if x > 100 {
        100
    } else {
        x
    }
}

/// Cause confidence, always in `0..=100`.
#[derive(Debug, Clone, Copy, PartialEq, Eq, Structural)]
pub struct Confidence {
    v: u8,
}

impl Confidence {
    #[verifier::type_invariant]
    spec fn in_range(self) -> bool {
        self.v <= 100
    }

    /// The confidence value.
    pub closed spec fn val(self) -> int {
        self.v as int
    }

    /// Zero confidence.
    pub fn min_value() -> (c: Confidence)
        ensures
            c.val() == 0,
    {
        Confidence { v: 0 }
    }

    /// `Some` for values in `0..=100`.
    pub fn new(v: u8) -> (c: Option<Confidence>)
        ensures
            v <= 100 <==> c is Some,
            c matches Some(c) ==> c.val() == v,
    {
        if v <= 100 {
            Some(Confidence { v })
        } else {
            None
        }
    }

    /// The confidence value (`0..=100`).
    pub fn value(&self) -> (v: u8)
        ensures
            v == self.val(),
            v <= 100,
    {
        proof {
            use_type_invariant(self);
        }
        self.v
    }

    /// Applies a weight: `clamp(self + w, 0, 100)`.
    pub fn apply(self, w: Weight) -> (c: Confidence)
        ensures
            c.val() == clamp_confidence(self.val() + w.val()),
    {
        let cur = self.value() as i16;
        let wv = w.value() as i16;
        let sum = cur + wv;
        let v: u8 = if sum < 0 {
            0
        } else if sum > 100 {
            100
        } else {
            sum as u8
        };
        Confidence { v }
    }

    /// The larger of two confidences.
    pub fn max(self, other: Confidence) -> (c: Confidence)
        ensures
            c.val() == if self.val() >= other.val() {
                self.val()
            } else {
                other.val()
            },
    {
        if self.value() >= other.value() {
            self
        } else {
            other
        }
    }

    /// Whether the confidence is at least `Probable` (`>= 40`).
    pub fn is_probable(&self) -> (b: bool)
        ensures
            b == (self.val() >= PROBABLE_THRESHOLD),
    {
        self.value() >= PROBABLE_THRESHOLD
    }

    /// Whether the confidence is `Confirmed` (`>= 80`).
    pub fn is_confirmed(&self) -> (b: bool)
        ensures
            b == (self.val() >= CONFIRMED_THRESHOLD),
    {
        self.value() >= CONFIRMED_THRESHOLD
    }
}

/// Applying supporting (non-negative) weights is order-independent: the
/// result is `min(100, c + w1 + w2)` either way. The same holds for two
/// non-positive weights, floored at 0.
pub proof fn lemma_confidence_same_sign_commutes(c: int, w1: int, w2: int)
    requires
        0 <= c <= 100,
        (w1 >= 0 && w2 >= 0) || (w1 <= 0 && w2 <= 0),
    ensures
        clamp_confidence(clamp_confidence(c + w1) + w2) == clamp_confidence(
            clamp_confidence(c + w2) + w1,
        ),
        clamp_confidence(clamp_confidence(c + w1) + w2) == clamp_confidence(c + w1 + w2),
{
}

/// An inference weight in `-100..=100`; negative weights contradict.
#[derive(Debug, Clone, Copy, PartialEq, Eq, Structural)]
pub struct Weight {
    w: i8,
}

impl Weight {
    #[verifier::type_invariant]
    spec fn in_range(self) -> bool {
        -100 <= self.w <= 100
    }

    /// The weight value.
    pub closed spec fn val(self) -> int {
        self.w as int
    }

    /// `Some` for values in `-100..=100`.
    pub fn new(w: i8) -> (r: Option<Weight>)
        ensures
            (-100 <= w <= 100) <==> r is Some,
            r matches Some(r) ==> r.val() == w,
    {
        if -100 <= w && w <= 100 {
            Some(Weight { w })
        } else {
            None
        }
    }

    /// The weight value (`-100..=100`).
    pub fn value(&self) -> (w: i8)
        ensures
            w == self.val(),
            -100 <= w <= 100,
    {
        proof {
            use_type_invariant(self);
        }
        self.w
    }

    /// Whether the weight supports (is non-negative) rather than contradicts.
    pub fn is_supporting(&self) -> (b: bool)
        ensures
            b == (self.val() >= 0),
    {
        self.value() >= 0
    }
}

// ─────────────────────────────── severities ────────────────────────────────

/// Problem severity.
#[derive(Debug, Clone, Copy, PartialEq, Eq, Structural)]
pub enum Severity {
    /// Critical.
    Critical,
    /// High.
    High,
    /// Medium.
    Medium,
    /// Low.
    Low,
    /// Recommended.
    Recommended,
    /// Optional.
    Optional,
}

// ─────────────────────────────── scopes ────────────────────────────────────

/// The partition scope kinds.
#[derive(Debug, Clone, Copy, PartialEq, Eq, Structural)]
pub enum ScopeType {
    /// One TCP/UDP session.
    Session,
    /// One switch port.
    Port,
    /// One client MAC address.
    ClientMac,
    /// One VLAN.
    Vlan,
    /// One access point.
    AccessPoint,
    /// The whole network.
    Global,
}

/// Scope containment: `a` is subsumed by `b` when every `a`-scope lies
/// within one `b`-scope (sessions within ports, clients, VLANs and APs;
/// clients within APs and VLANs; ports within VLANs; everything within
/// `Global`).
pub open spec fn subsumed(a: ScopeType, b: ScopeType) -> bool {
    a == b || b == ScopeType::Global || (a == ScopeType::Session && b != ScopeType::Session) || (
    a == ScopeType::ClientMac && (b == ScopeType::AccessPoint || b == ScopeType::Vlan)) || (a
        == ScopeType::Port && b == ScopeType::Vlan)
}

/// Numeric code of a scope type (used for ordering and hashing).
pub open spec fn scope_type_code(t: ScopeType) -> u64 {
    match t {
        ScopeType::Session => 0,
        ScopeType::Port => 1,
        ScopeType::ClientMac => 2,
        ScopeType::Vlan => 3,
        ScopeType::AccessPoint => 4,
        ScopeType::Global => 5,
    }
}

impl ScopeType {
    /// Scope containment (see [`subsumed`]).
    pub fn is_subsumed_by(self, other: ScopeType) -> (b: bool)
        ensures
            b == subsumed(self, other),
    {
        match (self, other) {
            (_, ScopeType::Global) => true,
            (ScopeType::Session, _) => true,
            (ScopeType::ClientMac, ScopeType::AccessPoint) => true,
            (ScopeType::ClientMac, ScopeType::Vlan) => true,
            (ScopeType::Port, ScopeType::Vlan) => true,
            (ScopeType::ClientMac, ScopeType::ClientMac) => true,
            (ScopeType::Port, ScopeType::Port) => true,
            (ScopeType::Vlan, ScopeType::Vlan) => true,
            (ScopeType::AccessPoint, ScopeType::AccessPoint) => true,
            _ => false,
        }
    }

    /// Numeric code of the scope type.
    pub fn code(self) -> (c: u64)
        ensures
            c == scope_type_code(self),
    {
        match self {
            ScopeType::Session => 0,
            ScopeType::Port => 1,
            ScopeType::ClientMac => 2,
            ScopeType::Vlan => 3,
            ScopeType::AccessPoint => 4,
            ScopeType::Global => 5,
        }
    }
}

/// Scope containment is a partial order: reflexive, antisymmetric and
/// transitive.
pub proof fn lemma_subsumed_partial_order(a: ScopeType, b: ScopeType, c: ScopeType)
    ensures
        subsumed(a, a),
        subsumed(a, b) && subsumed(b, a) ==> a == b,
        subsumed(a, b) && subsumed(b, c) ==> subsumed(a, c),
{
}

/// A concrete partition: its scope type plus two key words (session
/// endpoints pack `ip << 16 | port`; ports carry `(switch, port)`; MAC, VLAN
/// and AP scopes use the first word).
#[derive(Debug, Clone, Copy, PartialEq, Eq, Structural)]
pub struct ScopeId {
    /// The scope type.
    pub kind: ScopeType,
    /// First key word.
    pub a: u64,
    /// Second key word.
    pub b: u64,
}

/// Strict total order on scopes: by type code, then `a`, then `b`.
pub open spec fn scope_lt(x: ScopeId, y: ScopeId) -> bool {
    let cx = scope_type_code(x.kind);
    let cy = scope_type_code(y.kind);
    cx < cy || (cx == cy && (x.a < y.a || (x.a == y.a && x.b < y.b)))
}

/// splitmix64 finalizer (deterministic across runs and platforms).
pub open spec fn mix64(x: u64) -> u64 {
    let z1 = ((x ^ (x >> 30u64)) as int * 0xBF58_476D_1CE4_E5B9int) % 0x1_0000_0000_0000_0000int;
    let z1 = z1 as u64;
    let z2 = ((z1 ^ (z1 >> 27u64)) as int * 0x94D0_49BB_1331_11EBint) % 0x1_0000_0000_0000_0000int;
    let z2 = z2 as u64;
    z2 ^ (z2 >> 31u64)
}

/// Deterministic 64-bit hash of a scope.
pub open spec fn scope_hash(s: ScopeId) -> u64 {
    let h0 = mix64(((scope_type_code(s.kind) as int + 1) * 0x9E37_79B9_7F4A_7C15int % 0x1_0000_0000_0000_0000int) as u64);
    let h1 = mix64(h0 ^ s.a);
    mix64(h1 ^ s.b)
}

/// Exec splitmix64 finalizer.
pub fn mix64_exec(x: u64) -> (r: u64)
    ensures
        r == mix64(x),
{
    let z1 = (x ^ (x >> 30u64)).wrapping_mul(0xBF58_476D_1CE4_E5B9u64);
    let z2 = (z1 ^ (z1 >> 27u64)).wrapping_mul(0x94D0_49BB_1331_11EBu64);
    z2 ^ (z2 >> 31u64)
}

impl ScopeId {
    /// The whole-network scope.
    pub fn global() -> (s: ScopeId)
        ensures
            s.kind == ScopeType::Global && s.a == 0 && s.b == 0,
    {
        ScopeId { kind: ScopeType::Global, a: 0, b: 0 }
    }

    /// A VLAN scope.
    pub fn vlan(id: u64) -> (s: ScopeId)
        ensures
            s.kind == ScopeType::Vlan && s.a == id && s.b == 0,
    {
        ScopeId { kind: ScopeType::Vlan, a: id, b: 0 }
    }

    /// A switch-port scope.
    pub fn port(switch: u64, port: u64) -> (s: ScopeId)
        ensures
            s.kind == ScopeType::Port && s.a == switch && s.b == port,
    {
        ScopeId { kind: ScopeType::Port, a: switch, b: port }
    }

    /// An access-point scope.
    pub fn access_point(mac: u64) -> (s: ScopeId)
        ensures
            s.kind == ScopeType::AccessPoint && s.a == mac && s.b == 0,
    {
        ScopeId { kind: ScopeType::AccessPoint, a: mac, b: 0 }
    }

    /// A client-MAC scope.
    pub fn client_mac(mac: u64) -> (s: ScopeId)
        ensures
            s.kind == ScopeType::ClientMac && s.a == mac && s.b == 0,
    {
        ScopeId { kind: ScopeType::ClientMac, a: mac, b: 0 }
    }

    /// A session scope between two `(ip, port)` endpoints.
    pub fn session(src: (u32, u16), dst: (u32, u16)) -> (s: ScopeId)
        ensures
            s.kind == ScopeType::Session,
            s.a == src.0 as u64 * 0x1_0000 + src.1 as u64,
            s.b == dst.0 as u64 * 0x1_0000 + dst.1 as u64,
    {
        let a = (src.0 as u64) * 0x1_0000u64 + src.1 as u64;
        let b = (dst.0 as u64) * 0x1_0000u64 + dst.1 as u64;
        ScopeId { kind: ScopeType::Session, a, b }
    }

    /// The scope's type.
    pub fn scope_type(&self) -> (t: ScopeType)
        ensures
            t == self.kind,
    {
        self.kind
    }

    /// Deterministic 64-bit hash key.
    pub fn hash_key(&self) -> (h: u64)
        ensures
            h == scope_hash(*self),
    {
        let c = self.kind.code();
        let seed = (c + 1).wrapping_mul(0x9E37_79B9_7F4A_7C15u64);
        let h0 = mix64_exec(seed);
        let h1 = mix64_exec(h0 ^ self.a);
        mix64_exec(h1 ^ self.b)
    }

    /// Strict scope order (`scope_lt`).
    pub fn lt(&self, other: &ScopeId) -> (b: bool)
        ensures
            b == scope_lt(*self, *other),
    {
        let cx = self.kind.code();
        let cy = other.kind.code();
        cx < cy || (cx == cy && (self.a < other.a || (self.a == other.a && self.b < other.b)))
    }

    /// Scope equality.
    pub fn same(&self, other: &ScopeId) -> (b: bool)
        ensures
            b == (*self == *other),
    {
        self.kind == other.kind && self.a == other.a && self.b == other.b
    }
}

/// `scope_lt` is a strict total order.
pub proof fn lemma_scope_order(x: ScopeId, y: ScopeId, z: ScopeId)
    ensures
        !scope_lt(x, x),
        scope_lt(x, y) ==> !scope_lt(y, x),
        scope_lt(x, y) && scope_lt(y, z) ==> scope_lt(x, z),
        x != y ==> scope_lt(x, y) || scope_lt(y, x),
{
    if x != y && scope_type_code(x.kind) == scope_type_code(y.kind) {
        assert(x.kind == y.kind);
    }
}

// ───────────────────────────── action kinds ────────────────────────────────

/// The closed set of declarative action kinds.
#[derive(Debug, Clone, Copy, PartialEq, Eq, Structural)]
pub enum ActionKind {
    /// Ask the capture layer for an extra observation.
    RequestObservation,
    /// Run an external check.
    RunCheck,
    /// Suppress a symptom problem.
    SuppressSymptom,
    /// Flag competing hypotheses.
    MarkAmbiguous,
    /// Ask for topology data.
    RequestTopology,
}


// ─────────────────────────────── names ─────────────────────────────────────

/// A symbolic catalog/ruleset name (event type, cause kind, rule id, …).
#[derive(Debug, Clone, PartialEq, Eq)]
pub struct Name {
    s: String,
}

impl View for Name {
    type V = Seq<char>;

    closed spec fn view(&self) -> Seq<char> {
        self.s@
    }
}

impl Name {
    /// Wraps a name.
    pub fn new(s: &str) -> (n: Name)
        ensures
            n@ == s@,
    {
        Name { s: s.to_owned() }
    }

    /// The name text.
    pub fn as_str(&self) -> (r: &str)
        ensures
            r@ == self@,
    {
        self.s.as_str()
    }

    /// A copy of the name.
    pub fn duplicate(&self) -> (n: Name)
        ensures
            n@ == self@,
    {
        Name { s: self.s.clone() }
    }

    /// Text equality.
    pub fn same(&self, other: &Name) -> (b: bool)
        ensures
            b == (self@ == other@),
    {
        self.s == other.s
    }

    /// Strict lexicographic order on the name text.
    pub fn precedes(&self, other: &Name) -> (b: bool)
        ensures
            b == chars_lt(self@, other@),
    {
        text_lt(self.s.as_str(), other.s.as_str())
    }

    /// Equality with a string slice.
    pub fn is(&self, text: &str) -> (b: bool)
        ensures
            b == (self@ == text@),
    {
        let t = text.to_owned();
        self.s == t
    }
}

/// Lexicographic strict order on character sequences (a proper prefix comes
/// first); the order `String` comparison induces, since UTF-8 preserves
/// code-point order.
pub open spec fn chars_lt(a: Seq<char>, b: Seq<char>) -> bool
    decreases a.len(),
{
    if a.len() == 0 {
        b.len() > 0
    } else if b.len() == 0 {
        false
    } else if a[0] != b[0] {
        (a[0] as int) < (b[0] as int)
    } else {
        chars_lt(a.drop_first(), b.drop_first())
    }
}

proof fn lemma_chars_irreflexive(a: Seq<char>)
    ensures
        !chars_lt(a, a),
    decreases a.len(),
{
    if a.len() > 0 {
        lemma_chars_irreflexive(a.drop_first());
    }
}

proof fn lemma_chars_trichotomy(a: Seq<char>, b: Seq<char>)
    ensures
        chars_lt(a, b) ==> !chars_lt(b, a),
        a != b ==> chars_lt(a, b) || chars_lt(b, a),
    decreases a.len(),
{
    if a.len() > 0 && b.len() > 0 {
        lemma_chars_trichotomy(a.drop_first(), b.drop_first());
        if a[0] == b[0] && a.drop_first() == b.drop_first() {
            assert(a =~= seq![a[0]] + a.drop_first());
            assert(b =~= seq![b[0]] + b.drop_first());
        }
    } else if a.len() == 0 && b.len() == 0 {
        assert(a =~= b);
    }
}

proof fn lemma_chars_transitive(a: Seq<char>, b: Seq<char>, c: Seq<char>)
    requires
        chars_lt(a, b),
        chars_lt(b, c),
    ensures
        chars_lt(a, c),
    decreases a.len(),
{
    if a.len() > 0 && b.len() > 0 && c.len() > 0 && a[0] == b[0] && b[0] == c[0] {
        lemma_chars_transitive(a.drop_first(), b.drop_first(), c.drop_first());
    }
}

/// `chars_lt` is a strict total order.
pub proof fn lemma_chars_order(a: Seq<char>, b: Seq<char>, c: Seq<char>)
    ensures
        !chars_lt(a, a),
        chars_lt(a, b) ==> !chars_lt(b, a),
        chars_lt(a, b) && chars_lt(b, c) ==> chars_lt(a, c),
        a != b ==> chars_lt(a, b) || chars_lt(b, a),
{
    lemma_chars_irreflexive(a);
    lemma_chars_trichotomy(a, b);
    if chars_lt(a, b) && chars_lt(b, c) {
        lemma_chars_transitive(a, b, c);
    }
}

/// The characters of a string slice, in order.
pub fn chars_of(s: &str) -> (v: Vec<char>)
    ensures
        v@ == s@,
{
    broadcast use vstd::string::axiom_spec_iter;

    let mut v: Vec<char> = Vec::new();
    for c in it: s.chars()
        invariant
            v@ == it.seq().take(it.index() as int),
            it.seq() == s@,
    {
        v.push(c);
    }
    proof {
        assert(v@ =~= s@);
    }
    v
}

/// Strict lexicographic order of two string slices (`chars_lt`).
pub fn text_lt(x: &str, y: &str) -> (b: bool)
    ensures
        b == chars_lt(x@, y@),
{
    let a = chars_of(x);
    let c = chars_of(y);
    let mut i: usize = 0;
    proof {
        assert(a@.skip(0) =~= a@);
        assert(c@.skip(0) =~= c@);
    }
    while i < a.len() && i < c.len()
        invariant
            0 <= i <= a@.len(),
            i <= c@.len(),
            a@ == x@,
            c@ == y@,
            chars_lt(a@, c@) == chars_lt(a@.skip(i as int), c@.skip(i as int)),
        decreases a.len() - i,
    {
        let p = a[i];
        let q = c[i];
        if p != q {
            proof {
                assert(a@.skip(i as int)[0] == p);
                assert(c@.skip(i as int)[0] == q);
            }
            return p < q;
        }
        proof {
            assert(a@.skip(i as int).drop_first() =~= a@.skip(i + 1));
            assert(c@.skip(i as int).drop_first() =~= c@.skip(i + 1));
        }
        i = i + 1;
    }
    i == a.len() && i < c.len()
}

/// Text equality of two string slices.
pub fn text_eq(a: &str, b: &str) -> (r: bool)
    ensures
        r == (a@ == b@),
{
    let x = a.to_owned();
    let y = b.to_owned();
    x == y
}

/// Catalog event type, e.g. `tcp.retransmission_burst`.
pub type EventType = Name;

/// Catalog cause kind, e.g. `PmtudBlackhole`.
pub type CauseKind = Name;

/// Catalog problem kind, e.g. `XlIcmpTcpMss`.
pub type ProblemKind = Name;

/// Stable rule id.
pub type RuleId = Name;

/// Stable SARIF rule id.
pub type SarifId = Name;

/// Metric path such as `rtx.target`.
pub type MetricPath = Name;

/// Capability symbol such as `topology`.
pub type Capability = Name;

} // verus!
