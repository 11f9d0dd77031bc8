use vstd::prelude::*;

use crate::error::RouteError;
use crate::text::str_eq;

verus! {

/// One compiled segment of a registered path pattern.
#[derive(Debug)]
pub enum RouteSegment {
    /// Matches exactly this text.
    Literal(String),
    /// Matches any one segment and captures it under this name.
    Param(String),
}

/// The mathematical content of one segment.
pub enum SegModel {
    Literal(Seq<char>),
    Param(Seq<char>),
}

impl View for RouteSegment {
    type V = SegModel;

    open spec fn view(&self) -> SegModel {
        match self {
            RouteSegment::Literal(s) => SegModel::Literal(s@),
            RouteSegment::Param(s) => SegModel::Param(s@),
        }
    }
}

impl DeepView for RouteSegment {
    type V = SegModel;

    open spec fn deep_view(&self) -> SegModel {
        self@
    }
}

/// Splitting a path into segments: `/`-separated, empty segments dropped,
/// so the root path has no segments at all. `cur` carries the characters of
/// the segment being read.
pub open spec fn split_acc(s: Seq<char>, cur: Seq<char>) -> Seq<Seq<char>>
    decreases s.len(),
{
    if s.len() == 0 {
        if cur.len() == 0 {
            Seq::empty()
        } else {
            seq![cur]
        }
    } else if s[0] == '/' {
        (if cur.len() == 0 {
            Seq::empty()
        } else {
            seq![cur]
        }) + split_acc(s.drop_first(), Seq::empty())
    } else {
        split_acc(s.drop_first(), cur.push(s[0]))
    }
}

/// The segments of a path string.
pub open spec fn path_segments(s: Seq<char>) -> Seq<Seq<char>> {
    split_acc(s, Seq::empty())
}

/// Compiling one path segment: a leading `:` makes a named parameter,
/// anything else is matched verbatim.
pub open spec fn compile_part(p: Seq<char>) -> SegModel {
    if p.len() > 0 && p[0] == ':' {
        SegModel::Param(p.drop_first())
    } else {
        SegModel::Literal(p)
    }
}

pub open spec fn compile_parts(parts: Seq<Seq<char>>) -> Seq<SegModel> {
    parts.map_values(|p: Seq<char>| compile_part(p))
}

/// The compiled pattern of a registration-time path string.
pub open spec fn pattern_of_path(s: Seq<char>) -> Seq<SegModel> {
    compile_parts(path_segments(s))
}

/// Two patterns are structurally identical when they have the same length,
/// the same literals and parameters in the same positions; parameter names
/// do not matter.
pub open spec fn structural_eq(a: Seq<SegModel>, b: Seq<SegModel>) -> bool {
    a.len() == b.len() && forall|i: int|
        0 <= i < a.len() ==> #[trigger] seg_structural_eq(a[i], b[i])
}

pub open spec fn seg_structural_eq(a: SegModel, b: SegModel) -> bool {
    match (a, b) {
        (SegModel::Literal(x), SegModel::Literal(y)) => x == y,
        (SegModel::Param(_), SegModel::Param(_)) => true,
        _ => false,
    }
}

/// Whether a pattern matches a split path: same segment count, literals
/// equal verbatim, parameters match anything.
pub open spec fn segs_match(segs: Seq<SegModel>, parts: Seq<Seq<char>>) -> bool {
    segs.len() == parts.len() && forall|i: int|
        0 <= i < segs.len() ==> #[trigger] seg_matches(segs[i], parts[i])
}

pub open spec fn seg_matches(seg: SegModel, part: Seq<char>) -> bool {
    match seg {
        SegModel::Literal(x) => x == part,
        SegModel::Param(_) => true,
    }
}

/// The parameter captures of a match: each parameter's name paired with the
/// path segment at its position, in segment order.
pub open spec fn captures(segs: Seq<SegModel>, parts: Seq<Seq<char>>) -> Seq<
    (Seq<char>, Seq<char>),
>
    decreases segs.len(),
{
    if segs.len() == 0 {
        Seq::empty()
    } else {
        let rest = captures(segs.drop_first(), parts.drop_first());
        match segs[0] {
            SegModel::Param(name) => seq![(name, parts[0])] + rest,
            SegModel::Literal(_) => rest,
        }
    }
}

/// One registered pattern: the ordered segments compiled from the
/// registration-time path string.
#[derive(Debug)]
pub struct RoutePattern(pub Vec<RouteSegment>);

impl View for RoutePattern {
    type V = Seq<SegModel>;

    open spec fn view(&self) -> Seq<SegModel> {
        self.0.deep_view()
    }
}

/// Splits a path string into its non-empty `/`-separated segments.
pub fn split_path(path: &str) -> (r: Vec<String>)
    ensures
        r.deep_view() == path_segments(path@),
{
    let n: usize = path.unicode_len();
    let mut r: Vec<String> = Vec::new();
    let mut start: usize = 0;
    let mut i: usize = 0;
    proof {
        assert(path@.skip(0) =~= path@);
        assert(path@.subrange(0, 0) =~= Seq::<char>::empty());
        assert(r.deep_view() =~= Seq::<Seq<char>>::empty());
    }
    while i < n
        invariant
            n == path@.len(),
            start <= i <= n,
            path_segments(path@) == r.deep_view() + split_acc(
                path@.skip(i as int),
                path@.subrange(start as int, i as int),
            ),
        decreases n - i,
    {
        let ghost rem = path@.skip(i as int);
        let ghost cur = path@.subrange(start as int, i as int);
        proof {
            assert(rem[0] == path@[i as int]);
            assert(rem.drop_first() =~= path@.skip(i as int + 1));
        }
        if path.get_char(i) == '/' {
            if start < i {
                let seg = path.substring_char(start, i).to_owned();
                let ghost old_r = r.deep_view();
                r.push(seg);
                proof {
                    assert(r.deep_view() =~= old_r.push(cur));
                    assert(old_r.push(cur) =~= old_r + seq![cur]);
                }
            }
            start = i + 1;
            proof {
                assert(path@.subrange(start as int, i as int + 1) =~= Seq::<char>::empty());
            }
        } else {
            proof {
                assert(cur.push(path@[i as int]) =~= path@.subrange(start as int, i as int + 1));
            }
        }
        i += 1;
    }
    proof {
        assert(path@.skip(n as int) =~= Seq::<char>::empty());
    }
    if start < n {
        let seg = path.substring_char(start, n).to_owned();
        let ghost old_r = r.deep_view();
        let ghost cur = path@.subrange(start as int, n as int);
        r.push(seg);
        proof {
            assert(r.deep_view() =~= old_r.push(cur));
            assert(old_r.push(cur) =~= old_r + seq![cur]);
        }
    } else {
        proof {
            assert(r.deep_view() + Seq::<Seq<char>>::empty() =~= r.deep_view());
        }
    }
    r
}

impl RoutePattern {
    /// Compiles a registration-time path string into its pattern.
    pub fn from_path(path: &str) -> (r: RoutePattern)
        ensures
            r@ == pattern_of_path(path@),
    {
        let parts: Vec<String> = split_path(path);
        let n: usize = parts.len();
        let mut segs: Vec<RouteSegment> = Vec::new();
        proof {
            assert(segs.deep_view() =~= compile_parts(parts.deep_view().take(0)));
        }
        let mut i: usize = 0;
        while i < n
            invariant
                n == parts@.len(),
                i <= n,
                parts.deep_view() == path_segments(path@),
                segs.deep_view() =~= compile_parts(parts.deep_view().take(i as int)),
            decreases n - i,
        {
            let ghost part_model = parts.deep_view()[i as int];
            proof {
                assert(part_model == parts@[i as int]@);
            }
            let part: &String = &parts[i];
            let plen: usize = part.as_str().unicode_len();
            let ghost old_segs = segs.deep_view();
            if plen > 0 && part.as_str().get_char(0) == ':' {
                let name = part.as_str().substring_char(1, plen).to_owned();
                proof {
                    assert(name@ =~= part_model.drop_first());
                }
                segs.push(RouteSegment::Param(name));
            } else {
                segs.push(RouteSegment::Literal(part.clone()));
            }
            proof {
                assert(segs.deep_view() =~= old_segs.push(compile_part(part_model)));
                assert(parts.deep_view().take(i as int + 1) =~= parts.deep_view().take(
                    i as int,
                ).push(part_model));
                assert(compile_parts(parts.deep_view().take(i as int + 1)) =~= compile_parts(
                    parts.deep_view().take(i as int),
                ).push(compile_part(part_model)));
            }
            i += 1;
        }
        proof {
            assert(parts.deep_view().take(n as int) =~= parts.deep_view());
        }
        RoutePattern(segs)
    }

    /// Whether this pattern and `other` are structurally identical, the
    /// relation that makes a registration a duplicate.
    pub fn structural_eq_with(&self, other: &RoutePattern) -> (r: bool)
        ensures
            r == structural_eq(self@, other@),
    {
        let n: usize = self.0.len();
        if n != other.0.len() {
            return false;
        }
        let mut i: usize = 0;
        while i < n
            invariant
                n == self.0@.len(),
                n == other.0@.len(),
                i <= n,
                forall|j: int| 0 <= j < i ==> #[trigger] seg_structural_eq(self@[j], other@[j]),
            decreases n - i,
        {
            assert(self@[i as int] == self.0@[i as int]@);
            assert(other@[i as int] == other.0@[i as int]@);
            let same: bool = match (&self.0[i], &other.0[i]) {
                (RouteSegment::Literal(x), RouteSegment::Literal(y)) => str_eq(
                    x.as_str(),
                    y.as_str(),
                ),
                (RouteSegment::Param(_), RouteSegment::Param(_)) => true,
                _ => false,
            };
            if !same {
                assert(!seg_structural_eq(self@[i as int], other@[i as int]));
                return false;
            }
            i += 1;
        }
        true
    }

    /// Whether this pattern matches the split path `parts`; when it does,
    /// also returns the captured parameters in segment order.
    pub fn match_parts(&self, parts: &Vec<String>) -> (r: Option<Vec<(String, String)>>)
        ensures
            (match r {
                Some(params) => segs_match(self@, parts.deep_view()) && params.deep_view()
                    == captures(self@, parts.deep_view()),
                None => !segs_match(self@, parts.deep_view()),
            }),
    {
        let n: usize = self.0.len();
        if n != parts.len() {
            return None;
        }
        let mut params: Vec<(String, String)> = Vec::new();
        proof {
            assert(params.deep_view() =~= Seq::<(Seq<char>, Seq<char>)>::empty());
            assert(captures_take(self@, parts.deep_view(), 0) =~= Seq::<
                (Seq<char>, Seq<char>),
            >::empty());
        }
        let mut i: usize = 0;
        while i < n
            invariant
                n == self.0@.len(),
                n == parts@.len(),
                i <= n,
                forall|j: int| 0 <= j < i ==> #[trigger] seg_matches(self@[j], parts.deep_view()[j]),
                params.deep_view() == captures_take(self@, parts.deep_view(), i as int),
            decreases n - i,
        {
            assert(self@[i as int] == self.0@[i as int]@);
            assert(parts.deep_view()[i as int] == parts@[i as int]@);
            let ghost old_params = params.deep_view();
            match &self.0[i] {
                RouteSegment::Literal(x) => {
                    if !str_eq(x.as_str(), parts[i].as_str()) {
                        assert(!seg_matches(self@[i as int], parts.deep_view()[i as int]));
                        return None;
                    }
                    proof {
                        lemma_captures_take_step(self@, parts.deep_view(), i as int);
                    }
                },
                RouteSegment::Param(name) => {
                    params.push((name.clone(), parts[i].clone()));
                    proof {
                        assert(params.deep_view() =~= old_params.push(
                            (name@, parts@[i as int]@),
                        ));
                        lemma_captures_take_step(self@, parts.deep_view(), i as int);
                        assert(captures_take(self@, parts.deep_view(), i as int + 1)
                            =~= old_params.push((name@, parts@[i as int]@)));
                    }
                },
            }
            i += 1;
        }
        proof {
            lemma_captures_take_all(self@, parts.deep_view());
        }
        Some(params)
    }
}

/// The captures of the first `i` segments only.
spec fn captures_take(
    segs: Seq<SegModel>,
    parts: Seq<Seq<char>>,
    i: int,
) -> Seq<(Seq<char>, Seq<char>)> {
    captures(segs.take(i), parts.take(i))
}

proof fn lemma_captures_push(segs: Seq<SegModel>, parts: Seq<Seq<char>>, s: SegModel, p: Seq<char>)
    requires
        segs.len() == parts.len(),
    ensures
        captures(segs.push(s), parts.push(p)) == (match s {
            SegModel::Param(name) => captures(segs, parts).push((name, p)),
            SegModel::Literal(_) => captures(segs, parts),
        }),
    decreases segs.len(),
{
    if segs.len() == 0 {
        assert(segs.push(s).drop_first() =~= segs);
        assert(parts.push(p).drop_first() =~= parts);
        assert(captures(segs.push(s), parts.push(p)) == (match segs.push(s)[0] {
            SegModel::Param(name) => seq![(name, parts.push(p)[0])] + captures(segs, parts),
            SegModel::Literal(_) => captures(segs, parts),
        }));
        match s {
            SegModel::Param(name) => {
                assert(seq![(name, p)] + captures(segs, parts) =~= captures(segs, parts).push(
                    (name, p),
                ));
            },
            SegModel::Literal(_) => {},
        }
    } else {
        assert(segs.push(s).drop_first() =~= segs.drop_first().push(s));
        assert(parts.push(p).drop_first() =~= parts.drop_first().push(p));
        lemma_captures_push(segs.drop_first(), parts.drop_first(), s, p);
        match segs[0] {
            SegModel::Param(name) => {
                match s {
                    SegModel::Param(name2) => {
                        assert(seq![(name, parts[0])] + captures(segs.drop_first(),
                            parts.drop_first()).push((name2, p)) =~= (seq![(name, parts[0])]
                            + captures(segs.drop_first(), parts.drop_first())).push((name2, p)));
                    },
                    SegModel::Literal(_) => {},
                }
            },
            SegModel::Literal(_) => {},
        }
    }
}

proof fn lemma_captures_take_step(segs: Seq<SegModel>, parts: Seq<Seq<char>>, i: int)
    requires
        segs.len() == parts.len(),
        0 <= i < segs.len(),
    ensures
        captures_take(segs, parts, i + 1) == (match segs[i] {
            SegModel::Param(name) => captures_take(segs, parts, i).push((name, parts[i])),
            SegModel::Literal(_) => captures_take(segs, parts, i),
        }),
{
    assert(segs.take(i + 1) =~= segs.take(i).push(segs[i]));
    assert(parts.take(i + 1) =~= parts.take(i).push(parts[i]));
    lemma_captures_push(segs.take(i), parts.take(i), segs[i], parts[i]);
}

proof fn lemma_captures_take_all(segs: Seq<SegModel>, parts: Seq<Seq<char>>)
    requires
        segs.len() == parts.len(),
    ensures
        captures_take(segs, parts, segs.len() as int) == captures(segs, parts),
{
    assert(segs.take(segs.len() as int) =~= segs);
    assert(parts.take(segs.len() as int) =~= parts);
}

/// Whether some registered entry is structurally identical to `q`.
pub open spec fn has_duplicate<H>(entries: Seq<(Seq<SegModel>, H)>, q: Seq<SegModel>) -> bool {
    exists|i: int| 0 <= i < entries.len() && structural_eq(#[trigger] entries[i].0, q)
}

/// The first entry at or after `i` whose pattern matches the split path.
pub open spec fn first_match_from<H>(
    entries: Seq<(Seq<SegModel>, H)>,
    parts: Seq<Seq<char>>,
    i: int,
) -> Option<int>
    decreases entries.len() - i,
{
    if i < 0 || i >= entries.len() {
        None
    } else if segs_match(entries[i].0, parts) {
        Some(i)
    } else {
        first_match_from(entries, parts, i + 1)
    }
}

/// The first registered entry whose pattern matches the split path.
pub open spec fn first_match<H>(entries: Seq<(Seq<SegModel>, H)>, parts: Seq<Seq<char>>) -> Option<
    int,
> {
    first_match_from(entries, parts, 0)
}

/// The ordered route table: (pattern, handler) pairs in registration order,
/// never holding two structurally identical patterns.
pub struct RouteMatcher<H>(pub Vec<(RoutePattern, H)>);

impl<H> View for RouteMatcher<H> {
    type V = Seq<(Seq<SegModel>, H)>;

    open spec fn view(&self) -> Seq<(Seq<SegModel>, H)> {
        Seq::new(self.0@.len(), |i: int| (self.0@[i].0@, self.0@[i].1))
    }
}

/// The route table invariant: no two entries are structurally identical.
pub open spec fn matcher_wf<H>(entries: Seq<(Seq<SegModel>, H)>) -> bool {
    forall|i: int, j: int|
        0 <= i < j < entries.len() ==> !structural_eq(
            #[trigger] entries[i].0,
            #[trigger] entries[j].0,
        )
}

impl<H> RouteMatcher<H> {
    /// The empty route table.
    pub fn new() -> (r: Self)
        ensures
            r@ == Seq::<(Seq<SegModel>, H)>::empty(),
            matcher_wf(r@),
    {
        let r = RouteMatcher(Vec::new());
        proof {
            assert(r@ =~= Seq::<(Seq<SegModel>, H)>::empty());
        }
        r
    }

    /// Appends a pattern compiled from `path` with its handler, unless a
    /// structurally identical pattern is already registered, in which case
    /// nothing changes and the duplicate is reported.
    pub fn register(&mut self, path: &str, handler: H) -> (r: Result<(), RouteError>)
        ensures
            (match r {
                Ok(_) => !has_duplicate(old(self)@, pattern_of_path(path@)) && final(self)@ == old(
                    self,
                )@.push((pattern_of_path(path@), handler)),
                Err(RouteError::DuplicatePattern(p)) => has_duplicate(
                    old(self)@,
                    pattern_of_path(path@),
                ) && final(self)@ == old(self)@ && p@ == path@,
            }),
            matcher_wf(old(self)@) ==> matcher_wf(final(self)@),
    {
        let pattern: RoutePattern = RoutePattern::from_path(path);
        let n: usize = self.0.len();
        let mut i: usize = 0;
        while i < n
            invariant
                *self == *old(self),
                n == self.0@.len(),
                i <= n,
                pattern@ == pattern_of_path(path@),
                forall|j: int| 0 <= j < i ==> !structural_eq(#[trigger] self@[j].0, pattern@),
            decreases n - i,
        {
            assert(self@[i as int].0 == self.0@[i as int].0@);
            if self.0[i].0.structural_eq_with(&pattern) {
                return Err(RouteError::DuplicatePattern(path.to_owned()));
            }
            i += 1;
        }
        let ghost old_entries = self@;
        self.0.push((pattern, handler));
        proof {
            assert(self@ =~= old_entries.push((pattern_of_path(path@), handler)));
            if matcher_wf(old_entries) {
                assert forall|a: int, b: int| 0 <= a < b < self@.len() implies !structural_eq(
                    #[trigger] self@[a].0,
                    #[trigger] self@[b].0,
                ) by {
                    if b < self@.len() - 1 {
                        assert(!structural_eq(old_entries[a].0, old_entries[b].0));
                    } else {
                        assert(!structural_eq(old_entries[a].0, pattern_of_path(path@)));
                    }
                }
            }
        }
        Ok(())
    }

    /// Resolves a request path: scans the entries in registration order and
    /// returns the first whose pattern matches, with its captured
    /// parameters; returns nothing when no entry matches.
    pub fn resolve(&self, path: &str) -> (r: Option<(&H, Vec<(String, String)>)>)
        ensures
            (match r {
                Some((h, params)) => {
                    let fm = first_match(self@, path_segments(path@));
                    &&& fm is Some
                    &&& 0 <= fm->Some_0 < self@.len()
                    &&& *h == self@[fm->Some_0].1
                    &&& params.deep_view() == captures(
                        self@[fm->Some_0].0,
                        path_segments(path@),
                    )
                },
                None => first_match(self@, path_segments(path@)) is None,
            }),
    {
        let parts: Vec<String> = split_path(path);
        let n: usize = self.0.len();
        let mut i: usize = 0;
        while i < n
            invariant
                n == self.0@.len(),
                i <= n,
                parts.deep_view() == path_segments(path@),
                first_match(self@, path_segments(path@)) == first_match_from(
                    self@,
                    path_segments(path@),
                    i as int,
                ),
            decreases n - i,
        {
            assert(self@[i as int] == (self.0@[i as int].0@, self.0@[i as int].1));
            if let Some(params) = self.0[i].0.match_parts(&parts) {
                return Some((&self.0[i].1, params));
            }
            i += 1;
        }
        None
    }

    /// The number of registered routes.
    pub fn len(&self) -> (r: usize)
        ensures
            r == self@.len(),
    {
        self.0.len()
    }
}

/// Law: within one registration sequence, a second pattern with segment
/// structure identical to an already-registered one is a duplicate — its
/// registration fails — whatever its parameter names; a second pattern with
/// different structure is no duplicate of the first, so, when it duplicates
/// no earlier entry either, its registration succeeds.
pub proof fn lemma_duplicate_registration<H>(
    entries: Seq<(Seq<SegModel>, H)>,
    p1: Seq<SegModel>,
    p2: Seq<SegModel>,
    h: H,
)
    requires
        !has_duplicate(entries, p2),
    ensures
        structural_eq(p1, p2) ==> has_duplicate(entries.push((p1, h)), p2),
        !structural_eq(p1, p2) ==> !has_duplicate(entries.push((p1, h)), p2),
{
    let pushed = entries.push((p1, h));
    if structural_eq(p1, p2) {
        assert(pushed[entries.len() as int].0 == p1);
        assert(has_duplicate(pushed, p2));
    }
    if !structural_eq(p1, p2) {
        assert forall|i: int| 0 <= i < pushed.len() implies !structural_eq(
            #[trigger] pushed[i].0,
            p2,
        ) by {
            if i < entries.len() {
                assert(pushed[i] == entries[i]);
                assert(!structural_eq(entries[i].0, p2));
            } else {
                assert(pushed[i].0 == p1);
            }
        }
    }
}

/// Law: a pattern never matches a split path with a different segment
/// count; a path with one segment too few or too many is never resolved
/// to that pattern.
pub proof fn lemma_segment_count_mismatch(segs: Seq<SegModel>, parts: Seq<Seq<char>>)
    requires
        segs.len() != parts.len(),
    ensures
        !segs_match(segs, parts),
{
}

/// Law: when every registered pattern's segment count differs from the
/// split path's segment count, resolution finds no entry at all.
pub proof fn lemma_no_match_when_counts_differ<H>(
    entries: Seq<(Seq<SegModel>, H)>,
    parts: Seq<Seq<char>>,
)
    requires
        forall|i: int| 0 <= i < entries.len() ==> (#[trigger] entries[i].0).len() != parts.len(),
    ensures
        first_match(entries, parts) is None,
{
    lemma_no_match_from(entries, parts, 0);
}

proof fn lemma_no_match_from<H>(entries: Seq<(Seq<SegModel>, H)>, parts: Seq<Seq<char>>, j: int)
    requires
        0 <= j <= entries.len(),
        forall|i: int| 0 <= i < entries.len() ==> (#[trigger] entries[i].0).len() != parts.len(),
    ensures
        first_match_from(entries, parts, j) is None,
    decreases entries.len() - j,
{
    if j < entries.len() {
        assert(!segs_match(entries[j].0, parts));
        lemma_no_match_from(entries, parts, j + 1);
    }
}

/// Law: resolution is first-match-wins. Whenever the entry at position `i`
/// matches the split path, resolution finds a matching entry at a position
/// no later than `i`; in particular, of several structurally matching
/// patterns the first registered one is returned.
pub proof fn lemma_first_match_wins<H>(
    entries: Seq<(Seq<SegModel>, H)>,
    parts: Seq<Seq<char>>,
    i: int,
)
    requires
        0 <= i < entries.len(),
        segs_match(entries[i].0, parts),
    ensures
        first_match(entries, parts) is Some,
        0 <= first_match(entries, parts)->Some_0 <= i,
        segs_match(entries[first_match(entries, parts)->Some_0].0, parts),
{
    lemma_first_match_from_wins(entries, parts, 0, i);
}

proof fn lemma_first_match_from_wins<H>(
    entries: Seq<(Seq<SegModel>, H)>,
    parts: Seq<Seq<char>>,
    j: int,
    i: int,
)
    requires
        0 <= j <= i < entries.len(),
        segs_match(entries[i].0, parts),
    ensures
        first_match_from(entries, parts, j) is Some,
        j <= first_match_from(entries, parts, j)->Some_0 <= i,
        segs_match(entries[first_match_from(entries, parts, j)->Some_0].0, parts),
    decreases i - j,
{
    if !segs_match(entries[j].0, parts) {
        lemma_first_match_from_wins(entries, parts, j + 1, i);
    }
}

} // verus!
