//! Track vocabulary (surfaces, props, terrain zones, themes) and the
//! validation that turns an authored track description into a `Track`.

use vstd::prelude::*;

use crate::binary32::{float_eq, is_positive_finite};
use crate::text::{decimal, decimal_string};

verus! {

/// Character-by-character string equality.
pub fn str_eq(a: &str, b: &str) -> (r: bool)
    ensures
        r == (a@ == b@),
{
    let n = a.unicode_len();
    let m = b.unicode_len();
    if n != m {
        return false;
    }
    let mut i: usize = 0;
    while i < n
        invariant
            n == a@.len(),
            m == b@.len(),
            n == m,
            i <= n,
            forall|j: int| 0 <= j < i ==> a@[j] == b@[j],
        decreases n - i,
    {
        if a.get_char(i) != b.get_char(i) {
            return false;
        }
        i = i + 1;
    }
    assert(a@ =~= b@);
    true
}

/// Lexicographic order on character sequences by code point, which is the
/// order Rust gives `str` (UTF-8 byte order agrees with code point order).
pub open spec fn lex_le(a: Seq<char>, b: Seq<char>) -> bool
    decreases a.len(),
{
    if a.len() == 0 {
        true
    } else if b.len() == 0 {
        false
    } else if a[0] != b[0] {
        (a[0] as int) < (b[0] as int)
    } else {
        lex_le(a.drop_first(), b.drop_first())
    }
}

/// Every element is at most every later one.
pub open spec fn sorted_lex(s: Seq<Seq<char>>) -> bool {
    forall|i: int, j: int| 0 <= i < j < s.len() ==> lex_le(s[i], s[j])
}

proof fn lemma_lex_total(a: Seq<char>, b: Seq<char>)
    ensures
        lex_le(a, b) || lex_le(b, a),
    decreases a.len(),
{
    if a.len() > 0 && b.len() > 0 {
        if a[0] == b[0] {
            lemma_lex_total(a.drop_first(), b.drop_first());
        } else {
            assert((a[0] as int) != (b[0] as int));
        }
    }
}

proof fn lemma_lex_trans(a: Seq<char>, b: Seq<char>, c: Seq<char>)
    requires
        lex_le(a, b),
        lex_le(b, c),
    ensures
        lex_le(a, c),
    decreases a.len(),
{
    if a.len() > 0 && b.len() > 0 && c.len() > 0 && a[0] == b[0] && b[0] == c[0] {
        lemma_lex_trans(a.drop_first(), b.drop_first(), c.drop_first());
    }
}

/// Once `k` leading characters agree, the order is decided by the rest.
proof fn lemma_lex_skip(a: Seq<char>, b: Seq<char>, k: int)
    requires
        0 <= k <= a.len(),
        k <= b.len(),
        forall|j: int| 0 <= j < k ==> a[j] == b[j],
    ensures
        lex_le(a, b) == lex_le(a.skip(k), b.skip(k)),
    decreases k,
{
    if k > 0 {
        lemma_lex_skip(a.drop_first(), b.drop_first(), k - 1);
        assert(a.drop_first().skip(k - 1) =~= a.skip(k));
        assert(b.drop_first().skip(k - 1) =~= b.skip(k));
    } else {
        assert(a.skip(0) =~= a);
        assert(b.skip(0) =~= b);
    }
}

/// `a <= b` in the order Rust gives `str`.
pub fn str_le(a: &str, b: &str) -> (r: bool)
    ensures
        r == lex_le(a@, b@),
{
    let n = a.unicode_len();
    let m = b.unicode_len();
    let mut i: usize = 0;
    while i < n && i < m && a.get_char(i) == b.get_char(i)
        invariant
            n == a@.len(),
            m == b@.len(),
            i <= n,
            i <= m,
            forall|j: int| 0 <= j < i ==> a@[j] == b@[j],
        decreases n - i,
    {
        i = i + 1;
    }
    proof {
        lemma_lex_skip(a@, b@, i as int);
    }
    if i < n && i < m {
        let ca = a.get_char(i);
        let cb = b.get_char(i);
        proof {
            assert(a@.skip(i as int)[0] == ca);
            assert(b@.skip(i as int)[0] == cb);
        }
        (ca as u32) < (cb as u32)
    } else {
        n <= m
    }
}

/// A vocabulary whose members are written in track files by a fixed name.
pub trait Named: Copy + Sized {
    spec fn spec_name(self) -> Seq<char>;

    fn name(self) -> (n: &'static str)
        ensures
            n@ == self.spec_name(),
    ;
}

/// Surface of one polyline segment.
#[derive(Debug, Clone, Copy, PartialEq, Eq, Structural)]
pub enum Surface {
    Road,
    Grass,
    Gravel,
}

impl Surface {
    pub const KNOWN: [Surface; 3] = [Surface::Road, Surface::Grass, Surface::Gravel];

    pub open spec fn spec_name(self) -> Seq<char> {
        match self {
            Surface::Road => "road"@,
            Surface::Grass => "grass"@,
            Surface::Gravel => "gravel"@,
        }
    }

    /// The member named `s` in track files, if any.
    pub open spec fn spec_from_name(s: Seq<char>) -> Option<Surface> {
        if s == "road"@ {
            Some(Surface::Road)
        } else if s == "grass"@ {
            Some(Surface::Grass)
        } else if s == "gravel"@ {
            Some(Surface::Gravel)
        } else {
            None
        }
    }

    pub fn name(self) -> (n: &'static str)
        ensures
            n@ == self.spec_name(),
    {
        match self {
            Surface::Road => "road",
            Surface::Grass => "grass",
            Surface::Gravel => "gravel",
        }
    }

    pub fn from_name(name: &str) -> (r: Option<Surface>)
        ensures
            r == Surface::spec_from_name(name@),
    {
        proof {
            Surface::lemma_names();
        }
        known_named(&Surface::KNOWN, name)
    }

    /// The known members, in declaration order, carry pairwise distinct names.
    pub proof fn lemma_names()
        ensures
            Surface::KNOWN@ == seq![Surface::Road, Surface::Grass, Surface::Gravel],
            forall|v: Surface| #[trigger] Surface::spec_from_name(v.spec_name()) == Some(v),
            forall|s: Seq<char>, v: Surface| Surface::spec_from_name(s) == Some(v) ==> s == v.spec_name(),
    {
        reveal_strlit("road");
        reveal_strlit("grass");
        reveal_strlit("gravel");
        assert("road"@.len() != "grass"@.len());
        assert("road"@.len() != "gravel"@.len());
        assert("grass"@.len() != "gravel"@.len());
        assert(Surface::KNOWN@ =~= seq![Surface::Road, Surface::Grass, Surface::Gravel]);
    }
}

impl Named for Surface {
    open spec fn spec_name(self) -> Seq<char> {
        Surface::spec_name(self)
    }

    fn name(self) -> (n: &'static str) {
        Surface::name(self)
    }
}

/// Kind of an authored decor prop placed near the Track.
#[derive(Debug, Clone, Copy, PartialEq, Eq, Structural)]
pub enum PropKind {
    Tree,
    TireStack,
    BrakeBoard,
}

impl PropKind {
    pub const KNOWN: [PropKind; 3] = [PropKind::Tree, PropKind::TireStack, PropKind::BrakeBoard];

    pub open spec fn spec_name(self) -> Seq<char> {
        match self {
            PropKind::Tree => "tree"@,
            PropKind::TireStack => "tire_stack"@,
            PropKind::BrakeBoard => "brake_board"@,
        }
    }

    /// The member named `s` in track files, if any.
    pub open spec fn spec_from_name(s: Seq<char>) -> Option<PropKind> {
        if s == "tree"@ {
            Some(PropKind::Tree)
        } else if s == "tire_stack"@ {
            Some(PropKind::TireStack)
        } else if s == "brake_board"@ {
            Some(PropKind::BrakeBoard)
        } else {
            None
        }
    }

    pub fn name(self) -> (n: &'static str)
        ensures
            n@ == self.spec_name(),
    {
        match self {
            PropKind::Tree => "tree",
            PropKind::TireStack => "tire_stack",
            PropKind::BrakeBoard => "brake_board",
        }
    }

    pub fn from_name(name: &str) -> (r: Option<PropKind>)
        ensures
            r == PropKind::spec_from_name(name@),
    {
        proof {
            PropKind::lemma_names();
        }
        known_named(&PropKind::KNOWN, name)
    }

    /// The known members, in declaration order, carry pairwise distinct names.
    pub proof fn lemma_names()
        ensures
            PropKind::KNOWN@ == seq![PropKind::Tree, PropKind::TireStack, PropKind::BrakeBoard],
            forall|v: PropKind| #[trigger] PropKind::spec_from_name(v.spec_name()) == Some(v),
            forall|s: Seq<char>, v: PropKind| PropKind::spec_from_name(s) == Some(v) ==> s == v.spec_name(),
    {
        reveal_strlit("tree");
        reveal_strlit("tire_stack");
        reveal_strlit("brake_board");
        assert("tree"@.len() != "tire_stack"@.len());
        assert("tree"@.len() != "brake_board"@.len());
        assert("tire_stack"@.len() != "brake_board"@.len());
        assert(PropKind::KNOWN@ =~= seq![PropKind::Tree, PropKind::TireStack, PropKind::BrakeBoard]);
    }
}

impl Named for PropKind {
    open spec fn spec_name(self) -> Seq<char> {
        PropKind::spec_name(self)
    }

    fn name(self) -> (n: &'static str) {
        PropKind::name(self)
    }
}

/// Kind of an authored Terrain Zone ground patch.
#[derive(Debug, Clone, Copy, PartialEq, Eq, Structural)]
pub enum ZoneKind {
    Sand,
    Dirt,
    DarkGrass,
}

impl ZoneKind {
    pub const KNOWN: [ZoneKind; 3] = [ZoneKind::Sand, ZoneKind::Dirt, ZoneKind::DarkGrass];

    pub open spec fn spec_name(self) -> Seq<char> {
        match self {
            ZoneKind::Sand => "sand"@,
            ZoneKind::Dirt => "dirt"@,
            ZoneKind::DarkGrass => "dark_grass"@,
        }
    }

    /// The member named `s` in track files, if any.
    pub open spec fn spec_from_name(s: Seq<char>) -> Option<ZoneKind> {
        if s == "sand"@ {
            Some(ZoneKind::Sand)
        } else if s == "dirt"@ {
            Some(ZoneKind::Dirt)
        } else if s == "dark_grass"@ {
            Some(ZoneKind::DarkGrass)
        } else {
            None
        }
    }

    pub fn name(self) -> (n: &'static str)
        ensures
            n@ == self.spec_name(),
    {
        match self {
            ZoneKind::Sand => "sand",
            ZoneKind::Dirt => "dirt",
            ZoneKind::DarkGrass => "dark_grass",
        }
    }

    pub fn from_name(name: &str) -> (r: Option<ZoneKind>)
        ensures
            r == ZoneKind::spec_from_name(name@),
    {
        proof {
            ZoneKind::lemma_names();
        }
        known_named(&ZoneKind::KNOWN, name)
    }

    /// The known members, in declaration order, carry pairwise distinct names.
    pub proof fn lemma_names()
        ensures
            ZoneKind::KNOWN@ == seq![ZoneKind::Sand, ZoneKind::Dirt, ZoneKind::DarkGrass],
            forall|v: ZoneKind| #[trigger] ZoneKind::spec_from_name(v.spec_name()) == Some(v),
            forall|s: Seq<char>, v: ZoneKind| ZoneKind::spec_from_name(s) == Some(v) ==> s == v.spec_name(),
    {
        reveal_strlit("sand");
        reveal_strlit("dirt");
        reveal_strlit("dark_grass");
        assert("sand"@[0] != "dirt"@[0]);
        assert("sand"@.len() != "dark_grass"@.len());
        assert("dirt"@.len() != "dark_grass"@.len());
        assert(ZoneKind::KNOWN@ =~= seq![ZoneKind::Sand, ZoneKind::Dirt, ZoneKind::DarkGrass]);
    }
}

impl Named for ZoneKind {
    open spec fn spec_name(self) -> Seq<char> {
        ZoneKind::spec_name(self)
    }

    fn name(self) -> (n: &'static str) {
        ZoneKind::name(self)
    }
}

/// Visual theme of the circuit; only one theme exists so far.
#[derive(Debug, Clone, Copy, PartialEq, Eq, Structural, Default)]
pub enum Theme {
    #[default]
    Hillside,
}

impl Theme {
    pub const KNOWN: [Theme; 1] = [Theme::Hillside];

    pub open spec fn spec_name(self) -> Seq<char> {
        match self {
            Theme::Hillside => "hillside"@,
        }
    }

    /// The member named `s` in track files, if any.
    pub open spec fn spec_from_name(s: Seq<char>) -> Option<Theme> {
        if s == "hillside"@ {
            Some(Theme::Hillside)
        } else {
            None
        }
    }

    pub fn name(self) -> (n: &'static str)
        ensures
            n@ == self.spec_name(),
    {
        match self {
            Theme::Hillside => "hillside",
        }
    }

    pub fn from_name(name: &str) -> (r: Option<Theme>)
        ensures
            r == Theme::spec_from_name(name@),
    {
        proof {
            Theme::lemma_names();
        }
        known_named(&Theme::KNOWN, name)
    }

    /// The known members, in declaration order, carry pairwise distinct names.
    pub proof fn lemma_names()
        ensures
            Theme::KNOWN@ == seq![Theme::Hillside],
            forall|v: Theme| #[trigger] Theme::spec_from_name(v.spec_name()) == Some(v),
            forall|s: Seq<char>, v: Theme| Theme::spec_from_name(s) == Some(v) ==> s == v.spec_name(),
    {
        reveal_strlit("hillside");
        assert(Theme::KNOWN@ =~= seq![Theme::Hillside]);
    }
}

impl Named for Theme {
    open spec fn spec_name(self) -> Seq<char> {
        Theme::spec_name(self)
    }

    fn name(self) -> (n: &'static str) {
        Theme::name(self)
    }
}

/// Finds the first known member whose name equals `name`.
pub fn known_named<T: Named>(known: &[T], name: &str) -> (r: Option<T>)
    ensures
        r matches Some(v) ==> exists|i: int|
            0 <= i < known@.len() && known@[i] == v && v.spec_name() == name@ && forall|j: int|
                0 <= j < i ==> known@[j].spec_name() != name@,
        r is None ==> forall|i: int| 0 <= i < known@.len() ==> known@[i].spec_name() != name@,
{
    let mut i: usize = 0;
    while i < known.len()
        invariant
            i <= known@.len(),
            forall|j: int| 0 <= j < i ==> known@[j].spec_name() != name@,
        decreases known@.len() - i,
    {
        let candidate = known[i];
        if str_eq(candidate.name(), name) {
            return Some(candidate);
        }
        i = i + 1;
    }
    None
}

/// The names of a vocabulary.
pub open spec fn names_of<T: Named>(known: Seq<T>) -> Seq<Seq<char>> {
    known.map_values(|v: T| v.spec_name())
}

/// The views of a list of string slices.
pub open spec fn str_views(names: Seq<&'static str>) -> Seq<Seq<char>> {
    names.map_values(|s: &'static str| s@)
}

/// Every known member's name, in ascending order, for error messages.
pub fn sorted_names<T: Named>(known: &[T]) -> (names: Vec<&'static str>)
    ensures
        sorted_lex(str_views(names@)),
        str_views(names@).to_multiset() == names_of(known@).to_multiset(),
{
    let mut names: Vec<&'static str> = Vec::new();
    let mut i: usize = 0;
    proof {
        assert(str_views(names@) =~= Seq::<Seq<char>>::empty());
        assert(names_of(known@.take(0)) =~= Seq::<Seq<char>>::empty());
    }
    while i < known.len()
        invariant
            i <= known@.len(),
            sorted_lex(str_views(names@)),
            str_views(names@).to_multiset() == names_of(known@.take(i as int)).to_multiset(),
        decreases known@.len() - i,
    {
        let name = known[i].name();
        let mut p: usize = 0;
        while p < names.len() && str_le(names[p], name)
            invariant
                p <= names@.len(),
                forall|k: int| 0 <= k < p ==> lex_le(#[trigger] names@[k]@, name@),
            decreases names@.len() - p,
        {
            p = p + 1;
        }
        let ghost before = str_views(names@);
        proof {
            if p < names@.len() {
                lemma_lex_total(names@[p as int]@, name@);
            }
            assert forall|k: int| p < k < before.len() implies lex_le(name@, before[k]) by {
                lemma_lex_trans(name@, before[p as int], before[k]);
            }
        }
        names.insert(p, name);
        proof {
            let after = str_views(names@);
            assert(after =~= before.insert(p as int, name@));
            vstd::seq_lib::to_multiset_insert(before, p as int, name@);
            assert(known@.take(i + 1) =~= known@.take(i as int).push(known@[i as int]));
            assert(names_of(known@.take(i + 1)) =~= names_of(known@.take(i as int)).push(
                name@,
            ));
            vstd::seq_lib::to_multiset_build(names_of(known@.take(i as int)), name@);
            assert forall|a: int, b: int| 0 <= a < b < after.len() implies lex_le(
                after[a],
                after[b],
            ) by {
                if a < p && b == p {
                } else if a == p && b > p {
                } else if a < p && b > p {
                    lemma_lex_trans(before[a], name@, before[b - 1]);
                } else if b < p {
                } else {
                    assert(a > p);
                }
            }
        }
        i = i + 1;
    }
    assert(known@.take(known@.len() as int) =~= known@);
    names
}

} // verus!

verus! {

/// A point of the authored polyline: binary32 bit patterns of x and y.
#[derive(Debug, Clone, Copy, PartialEq, Eq, Structural)]
pub struct Point {
    pub x: u32,
    pub y: u32,
}

impl Point {
    /// The two points encode equal coordinates (IEEE equality per axis).
    pub open spec fn same_as(self, other: Point) -> bool {
        float_eq(self.x, other.x) && float_eq(self.y, other.y)
    }
}

/// Copies a list of points.
pub fn copy_points(points: &Vec<Point>) -> (r: Vec<Point>)
    ensures
        r@ == points@,
{
    let mut r: Vec<Point> = Vec::new();
    let mut i: usize = 0;
    while i < points.len()
        invariant
            i <= points@.len(),
            r@ == points@.take(i as int),
        decreases points@.len() - i,
    {
        r.push(points[i]);
        i = i + 1;
        assert(r@ =~= points@.take(i as int));
    }
    assert(points@.take(points@.len() as int) =~= points@);
    r
}

/// One authored surface run: segments `start..=end` (`end` defaults to
/// `start`) get `surface`.
pub struct SurfaceSpanSource {
    pub start: usize,
    pub end: Option<usize>,
    pub surface: String,
}

/// One authored decor prop; a missing rotation means 0 degrees.
pub struct PropSource {
    pub kind: String,
    pub position: Point,
    pub rotation_degrees: Option<u32>,
}

/// One authored terrain zone; the polygon auto-closes.
pub struct ZoneSource {
    pub kind: String,
    pub polygon: Vec<Point>,
}

/// Start/finish line override: which polyline segment holds the line.
pub struct StartLineSource {
    pub segment: usize,
}

/// The authored content of a track file, as read from its JSON text.
pub struct TrackSource {
    pub name: String,
    pub widths: Option<Vec<u32>>,
    pub points: Vec<Point>,
    pub surfaces: Vec<SurfaceSpanSource>,
    pub props: Vec<PropSource>,
    pub terrain_zones: Vec<ZoneSource>,
    pub width: Option<u32>,
    pub theme: Option<String>,
    pub start_line: Option<StartLineSource>,
}

/// What a measurement of the source's coordinates within the closure
/// tolerance found: whether the last point returns to the first, and, for
/// the open polyline and for each zone polygon, which vertices lie within
/// the tolerance of an earlier vertex of the same list.
pub struct TrackSurvey {
    pub closed: bool,
    pub repeated: Vec<bool>,
    pub zone_repeated: Vec<Vec<bool>>,
}

/// Vertex `i` counts as distinct unless it is flagged as a repeat.
pub open spec fn fresh_at(flags: Seq<bool>, i: int) -> bool {
    !(i < flags.len() && flags[i])
}

/// Number of distinct vertices among the first `n`.
pub open spec fn count_fresh(flags: Seq<bool>, n: int) -> nat
    decreases n,
{
    if n <= 0 {
        0
    } else {
        count_fresh(flags, n - 1) + if fresh_at(flags, n - 1) {
            1nat
        } else {
            0nat
        }
    }
}

proof fn lemma_count_fresh_bound(flags: Seq<bool>, n: int)
    requires
        n >= 0,
    ensures
        count_fresh(flags, n) <= n,
    decreases n,
{
    if n > 0 {
        lemma_count_fresh_bound(flags, n - 1);
    }
}

/// Counts the distinct vertices among the first `n`.
pub fn count_distinct(flags: &Vec<bool>, n: usize) -> (c: usize)
    ensures
        c == count_fresh(flags@, n as int),
{
    let mut c: usize = 0;
    let mut i: usize = 0;
    while i < n
        invariant
            i <= n,
            c == count_fresh(flags@, i as int),
        decreases n - i,
    {
        proof {
            lemma_count_fresh_bound(flags@, i as int);
        }
        let repeat = i < flags.len() && flags[i];
        if !repeat {
            c = c + 1;
        }
        i = i + 1;
    }
    c
}

/// A closed circuit needs 3 distinct vertices plus the closing repeat; a
/// terrain zone needs 3 distinct vertices.
pub const MIN_DISTINCT_POINTS: usize = 3;

/// A parsed decor prop: kind, world position, facing in degrees (binary32).
#[derive(Debug, Clone, Copy, PartialEq, Eq, Structural)]
pub struct TrackProp {
    pub kind: PropKind,
    pub position: Point,
    pub rotation_degrees: u32,
}

/// A parsed terrain zone: a ground patch drawn beneath the Track.
#[derive(Debug)]
pub struct TerrainZone {
    pub kind: ZoneKind,
    pub polygon: Vec<Point>,
}

/// A validated closed circuit.
#[derive(Debug)]
pub struct Track {
    pub name: String,
    /// Full road width per vertex (binary32); the closing entry repeats the first.
    pub widths: Vec<u32>,
    /// Center polyline; the last point equals the first.
    pub points: Vec<Point>,
    /// Surface of segment `i`, from `points[i]` to `points[i + 1]`.
    pub surfaces: Vec<Surface>,
    pub props: Vec<TrackProp>,
    pub zones: Vec<TerrainZone>,
    pub theme: Theme,
    /// Segment holding the start/finish line.
    pub start_segment: usize,
}

/// `serde_json::Error`, the reason a track text is not well-formed JSON of
/// the track document's shape. It is carried through unopened; nothing is
/// claimed of its contents.
#[verifier::external_type_specification]
#[verifier::external_body]
pub struct ExJsonError(serde_json::Error);

/// Why an authored track was rejected.
#[derive(Debug)]
pub enum TrackParseError {
    /// The text is not a well-formed track document.
    Malformed(serde_json::Error),
    /// The polyline does not loop back to its first vertex.
    UnclosedLoop { first: Point, last: Point },
    /// Fewer than 3 distinct vertices.
    TooFewPoints(usize),
    /// Consecutive vertices coincide.
    ZeroLengthSegment { segment: usize },
    /// The global width is not a positive finite number.
    InvalidWidth(u32),
    /// The per-vertex widths do not match the points one to one.
    WidthsLengthMismatch { points: usize, widths: usize },
    /// A per-vertex width is not a positive finite number.
    InvalidVertexWidth { index: usize, value: u32 },
    /// Neither a global width nor per-vertex widths.
    MissingWidth,
    UnknownSurface { found: String, known: Vec<&'static str> },
    InvalidSurfaceSpan { start: usize, end: usize, segment_count: usize },
    UnknownPropType { found: String, known: Vec<&'static str> },
    UnknownZoneKind { found: String, known: Vec<&'static str> },
    DegenerateZone { distinct: usize },
    InvalidStartSegment { segment: usize, segment_count: usize },
    UnknownTheme { found: String, known: Vec<&'static str> },
}

/// `known` lists every member name of the vocabulary, sorted.
pub open spec fn lists_names<T: Named>(known: Vec<&'static str>, vocabulary: Seq<T>) -> bool {
    &&& sorted_lex(str_views(known@))
    &&& str_views(known@).to_multiset() == names_of(vocabulary).to_multiset()
}

/// Last segment covered by a span.
pub open spec fn span_last(span: SurfaceSpanSource) -> usize {
    match span.end {
        Some(e) => e,
        None => span.start,
    }
}

pub open spec fn span_in_range(span: SurfaceSpanSource, n: int) -> bool {
    span.start < n && span_last(span) < n && span_last(span) >= span.start
}

pub open spec fn span_fault(span: SurfaceSpanSource, n: int) -> bool {
    !span_in_range(span, n) || Surface::spec_from_name(span.surface@) is None
}

/// Index of the first faulty span.
pub open spec fn first_span_fault(spans: Seq<SurfaceSpanSource>, n: int) -> int {
    choose|i: int|
        0 <= i < spans.len() && span_fault(spans[i], n) && forall|j: int|
            0 <= j < i ==> !span_fault(#[trigger] spans[j], n)
}

/// The error reported for a faulty span.
pub open spec fn span_rejection(e: TrackParseError, span: SurfaceSpanSource, n: int) -> bool {
    if !span_in_range(span, n) {
        e matches TrackParseError::InvalidSurfaceSpan { start, end, segment_count } && start
            == span.start && end == span_last(span) && segment_count == n
    } else {
        e matches TrackParseError::UnknownSurface { found, known } && found@ == span.surface@
            && lists_names(known, Surface::KNOWN@)
    }
}

/// Segments painted by a span over a previous painting.
pub open spec fn paint_span(s: Seq<Surface>, span: SurfaceSpanSource) -> Seq<Surface> {
    Seq::new(
        s.len(),
        |k: int|
            if span.start <= k <= span_last(span) {
                Surface::spec_from_name(span.surface@).unwrap()
            } else {
                s[k]
            },
    )
}

/// Road everywhere, then the first `i` spans painted in order.
pub open spec fn painted(spans: Seq<SurfaceSpanSource>, i: int, n: nat) -> Seq<Surface>
    decreases i,
{
    if i <= 0 {
        Seq::new(n, |k: int| Surface::Road)
    } else {
        paint_span(painted(spans, i - 1, n), spans[i - 1])
    }
}

proof fn lemma_painted_len(spans: Seq<SurfaceSpanSource>, i: int, n: nat)
    ensures
        painted(spans, i, n).len() == n,
    decreases i,
{
    if i > 0 {
        lemma_painted_len(spans, i - 1, n);
    }
}

/// Resolves the surface of every segment from the authored spans.
pub fn resolve_surfaces(spans: &Vec<SurfaceSpanSource>, segment_count: usize) -> (r: Result<
    Vec<Surface>,
    TrackParseError,
>)
    ensures
        r is Ok <==> forall|i: int|
            0 <= i < spans@.len() ==> !span_fault(#[trigger] spans@[i], segment_count as int),
        r matches Ok(v) ==> v@ == painted(spans@, spans@.len() as int, segment_count as nat),
        r matches Err(e) ==> span_rejection(
            e,
            spans@[first_span_fault(spans@, segment_count as int)],
            segment_count as int,
        ),
{
    let mut surfaces: Vec<Surface> = vec![Surface::Road; segment_count];
    proof {
        assert(surfaces@ =~= painted(spans@, 0, segment_count as nat));
    }
    let mut i: usize = 0;
    while i < spans.len()
        invariant
            i <= spans@.len(),
            forall|j: int| 0 <= j < i ==> !span_fault(#[trigger] spans@[j], segment_count as int),
            surfaces@ == painted(spans@, i as int, segment_count as nat),
        decreases spans@.len() - i,
    {
        let span = &spans[i];
        let end = match span.end {
            Some(e) => e,
            None => span.start,
        };
        if span.start >= segment_count || end >= segment_count || end < span.start {
            proof {
                assert(span_fault(spans@[i as int], segment_count as int));
                let k = first_span_fault(spans@, segment_count as int);
                assert(k == i);
            }
            return Err(
                TrackParseError::InvalidSurfaceSpan { start: span.start, end, segment_count },
            );
        }
        let named = Surface::from_name(span.surface.as_str());
        match named {
            None => {
                proof {
                    assert(span_fault(spans@[i as int], segment_count as int));
                    let k = first_span_fault(spans@, segment_count as int);
                    assert(k == i);
                }
                let known = sorted_names(&Surface::KNOWN);
                return Err(
                    TrackParseError::UnknownSurface { found: span.surface.clone(), known },
                );
            },
            Some(surface) => {
                let ghost before = surfaces@;
                proof {
                    lemma_painted_len(spans@, i as int, segment_count as nat);
                }
                let mut k: usize = span.start;
                while k <= end
                    invariant
                        span.start <= k <= end + 1,
                        end < segment_count,
                        surfaces@.len() == before.len(),
                        before.len() == segment_count,
                        forall|m: int|
                            0 <= m < before.len() ==> #[trigger] surfaces@[m] == if span.start <= m
                                < k {
                                surface
                            } else {
                                before[m]
                            },
                    decreases end + 1 - k,
                {
                    surfaces.set(k, surface);
                    k = k + 1;
                }
                proof {
                    assert(surfaces@ =~= paint_span(before, spans@[i as int]));
                }
            },
        }
        i = i + 1;
    }
    Ok(surfaces)
}

} // verus!

verus! {

/// The theme an authored theme name resolves to, if it is known.
pub open spec fn theme_of(theme: Option<String>) -> Option<Theme> {
    match theme {
        None => Some(Theme::Hillside),
        Some(name) => Theme::spec_from_name(name@),
    }
}

/// The error reported for an unknown theme name.
pub open spec fn theme_rejection(e: TrackParseError, theme: Option<String>) -> bool {
    &&& theme matches Some(name)
    &&& e matches TrackParseError::UnknownTheme { found, known }
    &&& found@ == theme->Some_0@
    &&& lists_names(known, Theme::KNOWN@)
}

/// Resolves the authored theme; a missing theme means Hillside.
pub fn resolve_theme(theme: &Option<String>) -> (r: Result<Theme, TrackParseError>)
    ensures
        r is Ok <==> theme_of(*theme) is Some,
        r matches Ok(t) ==> theme_of(*theme) == Some(t),
        r matches Err(e) ==> theme_rejection(e, *theme),
{
    match theme {
        None => Ok(Theme::Hillside),
        Some(name) => match Theme::from_name(name.as_str()) {
            Some(t) => Ok(t),
            None => {
                let known = sorted_names(&Theme::KNOWN);
                Err(TrackParseError::UnknownTheme { found: name.clone(), known })
            },
        },
    }
}

} // verus!

verus! {

/// The parsed form of an authored prop with a known kind.
pub open spec fn prop_of(p: PropSource) -> TrackProp {
    TrackProp {
        kind: PropKind::spec_from_name(p.kind@).unwrap(),
        position: p.position,
        rotation_degrees: match p.rotation_degrees {
            Some(r) => r,
            None => 0,
        },
    }
}

pub open spec fn prop_fault(p: PropSource) -> bool {
    PropKind::spec_from_name(p.kind@) is None
}

pub open spec fn first_prop_fault(props: Seq<PropSource>) -> int {
    choose|i: int|
        0 <= i < props.len() && prop_fault(props[i]) && forall|j: int|
            0 <= j < i ==> !prop_fault(#[trigger] props[j])
}

/// Resolves every authored prop's kind.
pub fn resolve_props(props: &Vec<PropSource>) -> (r: Result<Vec<TrackProp>, TrackParseError>)
    ensures
        r is Ok <==> forall|i: int| 0 <= i < props@.len() ==> !prop_fault(#[trigger] props@[i]),
        r matches Ok(v) ==> v@ == props@.map_values(|p: PropSource| prop_of(p)),
        r matches Err(e) ==> e matches TrackParseError::UnknownPropType { found, known } && found@
            == props@[first_prop_fault(props@)].kind@ && lists_names(known, PropKind::KNOWN@),
{
    let mut out: Vec<TrackProp> = Vec::new();
    let mut i: usize = 0;
    while i < props.len()
        invariant
            i <= props@.len(),
            forall|j: int| 0 <= j < i ==> !prop_fault(#[trigger] props@[j]),
            out@ == props@.take(i as int).map_values(|p: PropSource| prop_of(p)),
        decreases props@.len() - i,
    {
        let prop = &props[i];
        match PropKind::from_name(prop.kind.as_str()) {
            None => {
                proof {
                    assert(prop_fault(props@[i as int]));
                    let k = first_prop_fault(props@);
                    assert(k == i);
                }
                let known = sorted_names(&PropKind::KNOWN);
                return Err(TrackParseError::UnknownPropType { found: prop.kind.clone(), known });
            },
            Some(kind) => {
                let rotation_degrees = match prop.rotation_degrees {
                    Some(r) => r,
                    None => 0,
                };
                out.push(TrackProp { kind, position: prop.position, rotation_degrees });
                proof {
                    assert(props@.take(i + 1) =~= props@.take(i as int).push(props@[i as int]));
                    assert(out@ =~= props@.take(i + 1).map_values(|p: PropSource| prop_of(p)));
                }
            },
        }
        i = i + 1;
    }
    proof {
        assert(props@.take(props@.len() as int) =~= props@);
    }
    Ok(out)
}

/// Repeat flags measured for zone `z` (none when the survey has no entry).
pub open spec fn zone_flags(survey: TrackSurvey, z: int) -> Seq<bool> {
    if 0 <= z < survey.zone_repeated@.len() {
        survey.zone_repeated@[z]@
    } else {
        Seq::empty()
    }
}

pub open spec fn zone_distinct(zones: Seq<ZoneSource>, survey: TrackSurvey, z: int) -> nat {
    count_fresh(zone_flags(survey, z), zones[z].polygon@.len() as int)
}

pub open spec fn zone_fault(zones: Seq<ZoneSource>, survey: TrackSurvey, z: int) -> bool {
    ZoneKind::spec_from_name(zones[z].kind@) is None || zone_distinct(zones, survey, z) < 3
}

pub open spec fn first_zone_fault(zones: Seq<ZoneSource>, survey: TrackSurvey) -> int {
    choose|i: int|
        0 <= i < zones.len() && zone_fault(zones, survey, i) && forall|j: int|
            0 <= j < i ==> !#[trigger] zone_fault(zones, survey, j)
}

/// The error reported for a faulty zone.
pub open spec fn zone_rejection(
    e: TrackParseError,
    zones: Seq<ZoneSource>,
    survey: TrackSurvey,
    z: int,
) -> bool {
    if ZoneKind::spec_from_name(zones[z].kind@) is None {
        e matches TrackParseError::UnknownZoneKind { found, known } && found@ == zones[z].kind@
            && lists_names(known, ZoneKind::KNOWN@)
    } else {
        e matches TrackParseError::DegenerateZone { distinct } && distinct == zone_distinct(
            zones,
            survey,
            z,
        )
    }
}

/// Resolves every authored terrain zone, in author order.
pub fn resolve_zones(zones: &Vec<ZoneSource>, survey: &TrackSurvey) -> (r: Result<
    Vec<TerrainZone>,
    TrackParseError,
>)
    ensures
        r is Ok <==> forall|i: int| 0 <= i < zones@.len() ==> !#[trigger] zone_fault(zones@, *survey, i),
        r matches Ok(v) ==> v@.len() == zones@.len() && forall|i: int|
            0 <= i < v@.len() ==> (#[trigger] v@[i]).kind == ZoneKind::spec_from_name(
                zones@[i].kind@,
            ).unwrap() && v@[i].polygon@ == zones@[i].polygon@,
        r matches Err(e) ==> zone_rejection(e, zones@, *survey, first_zone_fault(zones@, *survey)),
{
    let mut out: Vec<TerrainZone> = Vec::new();
    let mut i: usize = 0;
    while i < zones.len()
        invariant
            i <= zones@.len(),
            forall|j: int| 0 <= j < i ==> !#[trigger] zone_fault(zones@, *survey, j),
            out@.len() == i,
            forall|j: int|
                0 <= j < i ==> (#[trigger] out@[j]).kind == ZoneKind::spec_from_name(
                    zones@[j].kind@,
                ).unwrap() && out@[j].polygon@ == zones@[j].polygon@,
        decreases zones@.len() - i,
    {
        let zone = &zones[i];
        match ZoneKind::from_name(zone.kind.as_str()) {
            None => {
                proof {
                    assert(zone_fault(zones@, *survey, i as int));
                    let k = first_zone_fault(zones@, *survey);
                    assert(k == i);
                }
                let known = sorted_names(&ZoneKind::KNOWN);
                return Err(TrackParseError::UnknownZoneKind { found: zone.kind.clone(), known });
            },
            Some(kind) => {
                let distinct = if i < survey.zone_repeated.len() {
                    count_distinct(&survey.zone_repeated[i], zone.polygon.len())
                } else {
                    let none: Vec<bool> = Vec::new();
                    proof {
                        assert(none@ =~= zone_flags(*survey, i as int));
                    }
                    count_distinct(&none, zone.polygon.len())
                };
                if distinct < MIN_DISTINCT_POINTS {
                    proof {
                        assert(zone_fault(zones@, *survey, i as int));
                        let k = first_zone_fault(zones@, *survey);
                        assert(k == i);
                    }
                    return Err(TrackParseError::DegenerateZone { distinct });
                }
                out.push(TerrainZone { kind, polygon: copy_points(&zone.polygon) });
            },
        }
        i = i + 1;
    }
    Ok(out)
}

} // verus!

verus! {

/// The polyline with its closing vertex set exactly to the first vertex.
pub open spec fn closed_polyline(points: Seq<Point>) -> Seq<Point> {
    points.update(points.len() - 1, points[0])
}

/// Segment `i` joins two vertices that encode the same coordinates.
pub open spec fn segment_degenerate(points: Seq<Point>, i: int) -> bool {
    points[i].same_as(points[i + 1])
}

pub open spec fn has_degenerate_segment(points: Seq<Point>) -> bool {
    exists|i: int| 0 <= i < points.len() - 1 && segment_degenerate(points, i)
}

pub open spec fn first_degenerate_segment(points: Seq<Point>) -> int {
    choose|i: int|
        0 <= i < points.len() - 1 && segment_degenerate(points, i) && forall|j: int|
            0 <= j < i ==> !#[trigger] segment_degenerate(points, j)
}

/// Index of the first zero-length segment, if any.
pub fn first_zero_length(points: &Vec<Point>) -> (r: Option<usize>)
    ensures
        r is None <==> !has_degenerate_segment(points@),
        r matches Some(i) ==> i == first_degenerate_segment(points@),
{
    if points.len() < 2 {
        return None;
    }
    let mut i: usize = 0;
    while i < points.len() - 1
        invariant
            points@.len() >= 2,
            i + 1 <= points@.len(),
            forall|j: int| 0 <= j < i ==> !#[trigger] segment_degenerate(points@, j),
        decreases points@.len() - i,
    {
        let a = points[i];
        let b = points[i + 1];
        if crate::binary32::bits_eq(a.x, b.x) && crate::binary32::bits_eq(a.y, b.y) {
            proof {
                assert(segment_degenerate(points@, i as int));
                let k = first_degenerate_segment(points@);
                assert(k == i);
            }
            return Some(i);
        }
        i = i + 1;
    }
    None
}

/// Index of the first width that is not a positive finite number.
pub open spec fn first_bad_width(raw: Seq<u32>) -> int {
    choose|i: int|
        0 <= i < raw.len() && !is_positive_finite(raw[i]) && forall|j: int|
            0 <= j < i ==> is_positive_finite(#[trigger] raw[j])
}

/// The width sources resolve to per-vertex widths for `n` points.
pub open spec fn widths_accepted(widths: Option<Vec<u32>>, width: Option<u32>, n: int) -> bool {
    match widths {
        Some(raw) => raw@.len() == n && forall|i: int|
            0 <= i < n ==> is_positive_finite(#[trigger] raw@[i]),
        None => match width {
            Some(w) => is_positive_finite(w),
            None => false,
        },
    }
}

/// The error reported when the width sources do not resolve.
pub open spec fn widths_rejection(
    e: TrackParseError,
    widths: Option<Vec<u32>>,
    width: Option<u32>,
    n: int,
) -> bool {
    match widths {
        Some(raw) => if raw@.len() != n {
            e matches TrackParseError::WidthsLengthMismatch { points, widths } && points == n
                && widths == raw@.len()
        } else {
            e matches TrackParseError::InvalidVertexWidth { index, value } && index
                == first_bad_width(raw@) && value == raw@[first_bad_width(raw@)]
        },
        None => match width {
            Some(w) => e matches TrackParseError::InvalidWidth(v) && v == w,
            None => e matches TrackParseError::MissingWidth,
        },
    }
}

/// Per-vertex widths: an authored array wins (its closing entry set to the
/// opening one); otherwise the global width for every vertex.
pub open spec fn resolved_widths(widths: Option<Vec<u32>>, width: Option<u32>, n: int) -> Seq<
    u32,
> {
    match widths {
        Some(raw) => raw@.update(n - 1, raw@[0]),
        None => Seq::new(n as nat, |k: int| width.unwrap()),
    }
}

/// Resolves the road width of each of the `n` points.
pub fn resolve_widths(widths: Option<Vec<u32>>, width: Option<u32>, n: usize) -> (r: Result<
    Vec<u32>,
    TrackParseError,
>)
    requires
        n >= 1,
    ensures
        r is Ok <==> widths_accepted(widths, width, n as int),
        r matches Ok(v) ==> v@ == resolved_widths(widths, width, n as int),
        r matches Err(e) ==> widths_rejection(e, widths, width, n as int),
{
    match widths {
        Some(raw) => {
            let mut raw = raw;
            if raw.len() != n {
                return Err(TrackParseError::WidthsLengthMismatch { points: n, widths: raw.len() });
            }
            let mut i: usize = 0;
            while i < raw.len()
                invariant
                    i <= raw@.len(),
                    raw@.len() == n,
                    widths matches Some(w) && w@ == raw@,
                    forall|j: int| 0 <= j < i ==> is_positive_finite(#[trigger] raw@[j]),
                decreases raw@.len() - i,
            {
                if !crate::binary32::bits_positive_finite(raw[i]) {
                    proof {
                        let k = first_bad_width(raw@);
                        assert(!is_positive_finite(raw@[i as int]));
                        assert(k == i);
                    }
                    return Err(TrackParseError::InvalidVertexWidth { index: i, value: raw[i] });
                }
                i = i + 1;
            }
            let opening = raw[0];
            raw.set(n - 1, opening);
            Ok(raw)
        },
        None => match width {
            Some(w) => {
                if !crate::binary32::bits_positive_finite(w) {
                    return Err(TrackParseError::InvalidWidth(w));
                }
                let v = vec![w; n];
                proof {
                    assert(v@ =~= resolved_widths(widths, width, n as int));
                }
                Ok(v)
            },
            None => Err(TrackParseError::MissingWidth),
        },
    }
}

} // verus!

verus! {

/// Number of segments of the authored polyline.
pub open spec fn segment_count(src: TrackSource) -> int {
    src.points@.len() - 1
}

/// Distinct vertices of the open polyline (the closing repeat excluded).
pub open spec fn distinct_points(src: TrackSource, survey: TrackSurvey) -> nat {
    count_fresh(survey.repeated@, segment_count(src))
}

pub open spec fn spans_accepted(src: TrackSource) -> bool {
    forall|i: int|
        0 <= i < src.surfaces@.len() ==> !span_fault(#[trigger] src.surfaces@[i], segment_count(src))
}

pub open spec fn props_accepted(src: TrackSource) -> bool {
    forall|i: int| 0 <= i < src.props@.len() ==> !prop_fault(#[trigger] src.props@[i])
}

pub open spec fn zones_accepted(src: TrackSource, survey: TrackSurvey) -> bool {
    forall|i: int|
        0 <= i < src.terrain_zones@.len() ==> !#[trigger] zone_fault(src.terrain_zones@, survey, i)
}

pub open spec fn start_segment_of(src: TrackSource) -> int {
    match src.start_line {
        Some(line) => line.segment as int,
        None => 0,
    }
}

/// Every check of the authored track passes.
pub open spec fn source_accepted(src: TrackSource, survey: TrackSurvey) -> bool {
    &&& src.points@.len() > 0
    &&& survey.closed
    &&& distinct_points(src, survey) >= MIN_DISTINCT_POINTS
    &&& spans_accepted(src)
    &&& theme_of(src.theme) is Some
    &&& props_accepted(src)
    &&& zones_accepted(src, survey)
    &&& start_segment_of(src) < segment_count(src)
    &&& !has_degenerate_segment(closed_polyline(src.points@))
    &&& widths_accepted(src.widths, src.width, src.points@.len() as int)
}

/// The error reported for a rejected track: the first failing check, in
/// the order closure, distinctness, surface spans, theme, props, zones,
/// start line, segment lengths, widths.
pub open spec fn source_rejection(e: TrackParseError, src: TrackSource, survey: TrackSurvey) -> bool {
    let n = src.points@.len();
    if n == 0 {
        e matches TrackParseError::TooFewPoints(c) && c == 0
    } else if !survey.closed {
        e matches TrackParseError::UnclosedLoop { first, last } && first == src.points@[0] && last
            == src.points@[n - 1]
    } else if distinct_points(src, survey) < MIN_DISTINCT_POINTS {
        e matches TrackParseError::TooFewPoints(c) && c == distinct_points(src, survey)
    } else if !spans_accepted(src) {
        span_rejection(
            e,
            src.surfaces@[first_span_fault(src.surfaces@, segment_count(src))],
            segment_count(src),
        )
    } else if theme_of(src.theme) is None {
        theme_rejection(e, src.theme)
    } else if !props_accepted(src) {
        e matches TrackParseError::UnknownPropType { found, known } && found@ == src.props@[first_prop_fault(
            src.props@,
        )].kind@ && lists_names(known, PropKind::KNOWN@)
    } else if !zones_accepted(src, survey) {
        zone_rejection(e, src.terrain_zones@, survey, first_zone_fault(src.terrain_zones@, survey))
    } else if start_segment_of(src) >= segment_count(src) {
        e matches TrackParseError::InvalidStartSegment { segment, segment_count: count } && segment
            == start_segment_of(src) && count == segment_count(src)
    } else if has_degenerate_segment(closed_polyline(src.points@)) {
        e matches TrackParseError::ZeroLengthSegment { segment } && segment
            == first_degenerate_segment(closed_polyline(src.points@))
    } else {
        widths_rejection(e, src.widths, src.width, n as int)
    }
}

/// `t` is the track built from an accepted source.
pub open spec fn built_from(t: Track, src: TrackSource) -> bool {
    &&& t.name@ == src.name@
    &&& t.points@ == closed_polyline(src.points@)
    &&& t.surfaces@ == painted(
        src.surfaces@,
        src.surfaces@.len() as int,
        segment_count(src) as nat,
    )
    &&& theme_of(src.theme) == Some(t.theme)
    &&& t.props@ == src.props@.map_values(|p: PropSource| prop_of(p))
    &&& t.zones@.len() == src.terrain_zones@.len()
    &&& forall|i: int|
        0 <= i < t.zones@.len() ==> (#[trigger] t.zones@[i]).kind == ZoneKind::spec_from_name(
            src.terrain_zones@[i].kind@,
        ).unwrap() && t.zones@[i].polygon@ == src.terrain_zones@[i].polygon@
    &&& t.start_segment == start_segment_of(src)
    &&& t.widths@ == resolved_widths(src.widths, src.width, src.points@.len() as int)
}

impl Track {
    /// The invariants every parsed Track satisfies: a closed loop of at least
    /// three distinct vertices, one positive width per vertex (closing entry
    /// equal to the opening one), one surface per segment, non-degenerate
    /// segments and a start segment on the loop.
    pub open spec fn well_formed(self) -> bool {
        let n = self.points@.len();
        &&& n >= 4
        &&& self.points@[n - 1] == self.points@[0]
        &&& self.widths@.len() == n
        &&& self.widths@[n - 1] == self.widths@[0]
        &&& forall|i: int| 0 <= i < n ==> is_positive_finite(#[trigger] self.widths@[i])
        &&& self.surfaces@.len() == n - 1
        &&& forall|i: int| 0 <= i < n - 1 ==> !#[trigger] segment_degenerate(self.points@, i)
        &&& self.start_segment < n - 1
    }

    /// Validates an authored track and builds it; `survey` reports the
    /// tolerance measurements taken on the source's coordinates.
    pub fn from_source(src: TrackSource, survey: &TrackSurvey) -> (r: Result<Track, TrackParseError>)
        ensures
            r is Ok <==> source_accepted(src, *survey),
            r matches Ok(t) ==> built_from(t, src) && t.well_formed(),
            r matches Err(e) ==> source_rejection(e, src, *survey),
    {
        let n = src.points.len();
        if n == 0 {
            return Err(TrackParseError::TooFewPoints(0));
        }
        if !survey.closed {
            return Err(TrackParseError::UnclosedLoop { first: src.points[0], last: src.points[n - 1] });
        }
        let segments = n - 1;
        let distinct = count_distinct(&survey.repeated, segments);
        if distinct < MIN_DISTINCT_POINTS {
            return Err(TrackParseError::TooFewPoints(distinct));
        }
        proof {
            lemma_count_fresh_bound(survey.repeated@, segments as int);
        }
        let surfaces = match resolve_surfaces(&src.surfaces, segments) {
            Ok(v) => v,
            Err(e) => return Err(e),
        };
        let theme = match resolve_theme(&src.theme) {
            Ok(t) => t,
            Err(e) => return Err(e),
        };
        let props = match resolve_props(&src.props) {
            Ok(v) => v,
            Err(e) => return Err(e),
        };
        let zones = match resolve_zones(&src.terrain_zones, survey) {
            Ok(v) => v,
            Err(e) => return Err(e),
        };
        let start_segment = match &src.start_line {
            None => 0,
            Some(line) => {
                if line.segment >= segments {
                    return Err(
                        TrackParseError::InvalidStartSegment {
                            segment: line.segment,
                            segment_count: segments,
                        },
                    );
                }
                line.segment
            },
        };
        let mut points = copy_points(&src.points);
        let closing = points[0];
        points.set(n - 1, closing);
        proof {
            assert(points@ =~= closed_polyline(src.points@));
        }
        match first_zero_length(&points) {
            Some(segment) => {
                return Err(TrackParseError::ZeroLengthSegment { segment });
            },
            None => {},
        }
        let widths = match resolve_widths(src.widths, src.width, n) {
            Ok(v) => v,
            Err(e) => return Err(e),
        };
        proof {
            lemma_painted_len(src.surfaces@, src.surfaces@.len() as int, segments as nat);
        }
        Ok(
            Track {
                name: src.name,
                widths,
                points,
                surfaces,
                props,
                zones,
                theme,
                start_segment,
            },
        )
    }
}

} // verus!

verus! {

/// Names joined with `", "`.
pub open spec fn joined(names: Seq<Seq<char>>) -> Seq<char>
    decreases names.len(),
{
    if names.len() == 0 {
        Seq::empty()
    } else if names.len() == 1 {
        names[0]
    } else {
        joined(names.drop_last()) + ", "@ + names.last()
    }
}

/// Joins names with `", "`.
pub fn join_names(names: &Vec<&'static str>) -> (s: String)
    ensures
        s@ == joined(str_views(names@)),
{
    let mut s = String::new();
    let mut i: usize = 0;
    while i < names.len()
        invariant
            i <= names@.len(),
            s@ == joined(str_views(names@.take(i as int))),
        decreases names@.len() - i,
    {
        proof {
            assert(str_views(names@.take(i + 1)).drop_last() =~= str_views(names@.take(i as int)));
            assert(str_views(names@.take(i + 1)).last() == names@[i as int]@);
        }
        if i > 0 {
            s.append(", ");
        }
        s.append(names[i]);
        proof {
            if i == 0 {
                assert(s@ =~= joined(str_views(names@.take(1))));
            }
        }
        i = i + 1;
    }
    assert(names@.take(names@.len() as int) =~= names@);
    s
}

/// The description of a rejection that carries no binary32 value; the
/// malformed-text, unclosed-loop and width rejections are described with
/// their numbers' decimal forms by the caller.
pub open spec fn description(e: TrackParseError) -> Option<Seq<char>> {
    match e {
        TrackParseError::TooFewPoints(count) => Some(
            "closed track needs at least 3 distinct points, got "@ + decimal(count as nat),
        ),
        TrackParseError::ZeroLengthSegment { segment } => Some(
            "track segment "@ + decimal(segment as nat)
                + " has zero length; consecutive vertices must differ"@,
        ),
        TrackParseError::WidthsLengthMismatch { points, widths } => Some(
            "track widths has "@ + decimal(widths as nat) + " entries but the track has "@
                + decimal(points as nat)
                + " points; one width per vertex (closing repeat included) is required"@,
        ),
        TrackParseError::MissingWidth => Some(
            "track needs a positive width or a per-vertex widths array"@,
        ),
        TrackParseError::UnknownSurface { found, known } => Some(
            "unknown surface '"@ + found@ + "'; known surfaces: "@ + joined(str_views(known@)),
        ),
        TrackParseError::InvalidSurfaceSpan { start, end, segment_count } => Some(
            "surface span covers segments "@ + decimal(start as nat) + "..="@ + decimal(
                end as nat,
            ) + " but the track has only "@ + decimal(segment_count as nat) + " segments"@,
        ),
        TrackParseError::UnknownPropType { found, known } => Some(
            "unknown prop type '"@ + found@ + "'; known prop types: "@ + joined(
                str_views(known@),
            ),
        ),
        TrackParseError::UnknownZoneKind { found, known } => Some(
            "unknown terrain zone kind '"@ + found@ + "'; known zone kinds: "@ + joined(
                str_views(known@),
            ),
        ),
        TrackParseError::DegenerateZone { distinct } => Some(
            "terrain zone needs at least 3 distinct vertices, got "@ + decimal(distinct as nat),
        ),
        TrackParseError::InvalidStartSegment { segment, segment_count } => Some(
            "start segment "@ + decimal(segment as nat)
                + " is out of range: the track has only "@ + decimal(segment_count as nat)
                + " segments"@,
        ),
        TrackParseError::UnknownTheme { found, known } => Some(
            "unknown theme '"@ + found@ + "'; known themes: "@ + joined(str_views(known@)),
        ),
        _ => None,
    }
}

impl TrackParseError {
    /// The message for a rejection that carries no binary32 value or
    /// outside error; `None` for the others.
    pub fn describe(&self) -> (m: Option<String>)
        ensures
            match m {
                Some(s) => description(*self) == Some(s@),
                None => description(*self) is None,
            },
    {
        match self {
            TrackParseError::TooFewPoints(count) => {
                let mut s = String::from_str("closed track needs at least 3 distinct points, got ");
                s.append(decimal_string(*count as u64).as_str());
                Some(s)
            },
            TrackParseError::ZeroLengthSegment { segment } => {
                let mut s = String::from_str("track segment ");
                s.append(decimal_string(*segment as u64).as_str());
                s.append(" has zero length; consecutive vertices must differ");
                Some(s)
            },
            TrackParseError::WidthsLengthMismatch { points, widths } => {
                let mut s = String::from_str("track widths has ");
                s.append(decimal_string(*widths as u64).as_str());
                s.append(" entries but the track has ");
                s.append(decimal_string(*points as u64).as_str());
                s.append(" points; one width per vertex (closing repeat included) is required");
                Some(s)
            },
            TrackParseError::MissingWidth => Some(
                String::from_str("track needs a positive width or a per-vertex widths array"),
            ),
            TrackParseError::UnknownSurface { found, known } => {
                let mut s = String::from_str("unknown surface '");
                s.append(found.as_str());
                s.append("'; known surfaces: ");
                s.append(join_names(known).as_str());
                Some(s)
            },
            TrackParseError::InvalidSurfaceSpan { start, end, segment_count } => {
                let mut s = String::from_str("surface span covers segments ");
                s.append(decimal_string(*start as u64).as_str());
                s.append("..=");
                s.append(decimal_string(*end as u64).as_str());
                s.append(" but the track has only ");
                s.append(decimal_string(*segment_count as u64).as_str());
                s.append(" segments");
                Some(s)
            },
            TrackParseError::UnknownPropType { found, known } => {
                let mut s = String::from_str("unknown prop type '");
                s.append(found.as_str());
                s.append("'; known prop types: ");
                s.append(join_names(known).as_str());
                Some(s)
            },
            TrackParseError::UnknownZoneKind { found, known } => {
                let mut s = String::from_str("unknown terrain zone kind '");
                s.append(found.as_str());
                s.append("'; known zone kinds: ");
                s.append(join_names(known).as_str());
                Some(s)
            },
            TrackParseError::DegenerateZone { distinct } => {
                let mut s = String::from_str("terrain zone needs at least 3 distinct vertices, got ");
                s.append(decimal_string(*distinct as u64).as_str());
                Some(s)
            },
            TrackParseError::InvalidStartSegment { segment, segment_count } => {
                let mut s = String::from_str("start segment ");
                s.append(decimal_string(*segment as u64).as_str());
                s.append(" is out of range: the track has only ");
                s.append(decimal_string(*segment_count as u64).as_str());
                s.append(" segments");
                Some(s)
            },
            TrackParseError::UnknownTheme { found, known } => {
                let mut s = String::from_str("unknown theme '");
                s.append(found.as_str());
                s.append("'; known themes: ");
                s.append(join_names(known).as_str());
                Some(s)
            },
            _ => None,
        }
    }
}

} // verus!
