//! Route patterns: literal segments, named parameters and a trailing
//! wildcard, and the binding of a pattern against the segments of a path.

use vstd::prelude::*;
use vstd::string::*;
use crate::params::{keys_unique, lemma_upsert_lookup, lookup, upsert, ParamMap, PathParams};
use crate::text::{join_path, join_segments, split_path, split_segments, str_eq, strings_view};

verus! {

/// One segment of a route pattern.
#[derive(Debug, PartialEq, Eq)]
pub enum Segment {
    /// Matches a path segment with exactly these characters.
    Literal(String),
    /// Matches any one path segment and records it under this name.
    Named(String),
    /// Matches whatever is left of the path.
    Wildcard,
}

/// A pattern segment as specifications see it.
pub enum SegmentView {
    Literal(Seq<char>),
    Named(Seq<char>),
    Wildcard,
}

impl View for Segment {
    type V = SegmentView;

    open spec fn view(&self) -> SegmentView {
        match self {
            Segment::Literal(text) => SegmentView::Literal(text@),
            Segment::Named(name) => SegmentView::Named(name@),
            Segment::Wildcard => SegmentView::Wildcard,
        }
    }
}

/// The views of a sequence of pattern segments.
pub open spec fn segments_view(v: Seq<Segment>) -> Seq<SegmentView> {
    Seq::new(v.len(), |i: int| v[i]@)
}

/// The name under which a wildcard records what it consumed.
pub open spec fn wildcard_key() -> Seq<char> {
    seq!['*']
}

/// A wildcard stands only at the end, so there is at most one.
pub open spec fn wildcard_last(p: Seq<SegmentView>) -> bool {
    forall|i: int| 0 <= i < p.len() && p[i] is Wildcard ==> i == p.len() - 1
}

/// How one segment of a pattern text reads: `*` is the wildcard, a leading
/// `:` introduces a name, anything else is literal.
pub open spec fn segment_of(text: Seq<char>) -> SegmentView {
    if text == wildcard_key() {
        SegmentView::Wildcard
    } else if text.len() > 0 && text[0] == ':' {
        SegmentView::Named(text.skip(1))
    } else {
        SegmentView::Literal(text)
    }
}

/// How a pattern text reads, segment by segment.
pub open spec fn pattern_of(text: Seq<char>) -> Seq<SegmentView> {
    Seq::new(split_path(text).len(), |i: int| segment_of(split_path(text)[i]))
}

/// The number of literal segments that precede the first variable one.
pub open spec fn literal_prefix_len(p: Seq<SegmentView>) -> nat
    decreases p.len(),
{
    if p.len() == 0 || !(p[0] is Literal) {
        0
    } else {
        1 + literal_prefix_len(p.drop_first())
    }
}

/// Binding from segment `i` on, with `acc` holding what the segments
/// before `i` captured. A literal must equal its path segment, a name
/// captures its path segment, a wildcard captures the rest joined by `/`,
/// and without a wildcard the path must end where the pattern ends.
pub open spec fn bind_from(
    pat: Seq<SegmentView>,
    segs: Seq<Seq<char>>,
    i: int,
    acc: Seq<(Seq<char>, Seq<char>)>,
) -> Option<Seq<(Seq<char>, Seq<char>)>>
    decreases pat.len() - i,
{
    if i < 0 || i >= pat.len() {
        if segs.len() == pat.len() {
            Some(acc)
        } else {
            None
        }
    } else {
        match pat[i] {
            SegmentView::Wildcard => Some(upsert(acc, wildcard_key(), join_path(segs.skip(i)))),
            SegmentView::Literal(text) => if i < segs.len() && segs[i] == text {
                bind_from(pat, segs, i + 1, acc)
            } else {
                None
            },
            SegmentView::Named(name) => if i < segs.len() {
                bind_from(pat, segs, i + 1, upsert(acc, name, segs[i]))
            } else {
                None
            },
        }
    }
}

/// What a pattern captures from the segments of a path, or `None` where the
/// pattern does not match them.
pub open spec fn bind(pat: Seq<SegmentView>, segs: Seq<Seq<char>>) -> Option<
    Seq<(Seq<char>, Seq<char>)>,
> {
    bind_from(pat, segs, 0, Seq::empty())
}

/// Whether a pattern has the shape of a path: literals agree, and the
/// lengths agree up to what a trailing wildcard absorbs.
pub open spec fn shape_matches(pat: Seq<SegmentView>, segs: Seq<Seq<char>>) -> bool {
    let fixed = if pat.len() > 0 && pat.last() is Wildcard {
        pat.len() - 1
    } else {
        pat.len() as int
    };
    &&& if fixed == pat.len() {
        segs.len() == fixed
    } else {
        segs.len() >= fixed
    }
    &&& forall|i: int|
        0 <= i < fixed ==> (#[trigger] pat[i] matches SegmentView::Literal(text) ==> segs[i]
            == text)
}

/// A well-formed pattern binds exactly the paths that have its shape.
pub proof fn lemma_bind_iff_shape(pat: Seq<SegmentView>, segs: Seq<Seq<char>>)
    requires
        wildcard_last(pat),
    ensures
        bind(pat, segs) is Some <==> shape_matches(pat, segs),
{
    lemma_bind_from_shape(pat, segs, 0, Seq::empty());
}

proof fn lemma_bind_from_shape(
    pat: Seq<SegmentView>,
    segs: Seq<Seq<char>>,
    i: int,
    acc: Seq<(Seq<char>, Seq<char>)>,
)
    requires
        wildcard_last(pat),
        0 <= i <= pat.len(),
        i <= segs.len(),
        forall|j: int|
            0 <= j < i ==> !(#[trigger] pat[j] is Wildcard) && (pat[j] matches SegmentView::Literal(
                text,
            ) ==> segs[j] == text),
    ensures
        bind_from(pat, segs, i, acc) is Some <==> shape_matches(pat, segs),
    decreases pat.len() - i,
{
    if i >= pat.len() {
    } else {
        match pat[i] {
            SegmentView::Wildcard => {
                assert(i == pat.len() - 1);
            },
            SegmentView::Literal(text) => {
                if i < segs.len() && segs[i] == text {
                    lemma_bind_from_shape(pat, segs, i + 1, acc);
                } else {
                    assert(pat[i] is Literal);
                }
            },
            SegmentView::Named(name) => {
                if i < segs.len() {
                    lemma_bind_from_shape(pat, segs, i + 1, upsert(acc, name, segs[i]));
                } else {
                    assert(pat[i] is Named);
                }
            },
        }
    }
}

/// No segment from `from` on records anything under `name`.
pub open spec fn unbound_from(pat: Seq<SegmentView>, name: Seq<char>, from: int) -> bool {
    forall|j: int|
        from <= j < pat.len() ==> #[trigger] pat[j] != SegmentView::Named(name) && (pat[j]
            is Wildcard ==> name != wildcard_key())
}

/// Binding never records a name twice, and a name keeps the value of the
/// last segment that records it: where segment `i` is named `name` and no
/// later segment records under that name, the binding gives path segment
/// `i` for it.
pub proof fn lemma_bind_captures(
    pat: Seq<SegmentView>,
    segs: Seq<Seq<char>>,
    name: Seq<char>,
    i: int,
)
    requires
        wildcard_last(pat),
        0 <= i < pat.len(),
        pat[i] == SegmentView::Named(name),
        unbound_from(pat, name, i + 1),
        bind(pat, segs) is Some,
    ensures
        i < segs.len(),
        keys_unique(bind(pat, segs)->0),
        lookup(bind(pat, segs)->0, name) == Some(segs[i]),
{
    lemma_bind_from_captures(pat, segs, name, i, 0, Seq::empty());
}

proof fn lemma_bind_from_captures(
    pat: Seq<SegmentView>,
    segs: Seq<Seq<char>>,
    name: Seq<char>,
    i: int,
    k: int,
    acc: Seq<(Seq<char>, Seq<char>)>,
)
    requires
        wildcard_last(pat),
        0 <= i < pat.len(),
        0 <= k <= pat.len(),
        pat[i] == SegmentView::Named(name),
        unbound_from(pat, name, i + 1),
        keys_unique(acc),
        k > i ==> i < segs.len() && lookup(acc, name) == Some(segs[i]),
        bind_from(pat, segs, k, acc) is Some,
    ensures
        i < segs.len(),
        keys_unique(bind_from(pat, segs, k, acc)->0),
        lookup(bind_from(pat, segs, k, acc)->0, name) == Some(segs[i]),
    decreases pat.len() - k,
{
    if k < pat.len() {
        match pat[k] {
            SegmentView::Wildcard => {
                lemma_upsert_lookup(acc, wildcard_key(), join_path(segs.skip(k)), name);
                assert(k == pat.len() - 1);
            },
            SegmentView::Literal(text) => {
                lemma_bind_from_captures(pat, segs, name, i, k + 1, acc);
            },
            SegmentView::Named(other) => {
                lemma_upsert_lookup(acc, other, segs[k], name);
                if k > i {
                    assert(pat[k] != SegmentView::Named(name));
                }
                lemma_bind_from_captures(pat, segs, name, i, k + 1, upsert(acc, other, segs[k]));
            },
        }
    }
}

/// Why a sequence of segments is no pattern.
#[derive(Clone, Copy, Debug, PartialEq, Eq, Structural)]
pub enum PatternError {
    /// A wildcard stands before the last segment.
    MisplacedWildcard,
}

/// A route pattern: an ordered sequence of segments in which a wildcard,
/// if there is one, comes last.
#[derive(Debug, PartialEq, Eq)]
pub struct PathPattern {
    segments: Vec<Segment>,
}

impl View for PathPattern {
    type V = Seq<SegmentView>;

    closed spec fn view(&self) -> Seq<SegmentView> {
        segments_view(self.segments@)
    }
}

impl Clone for Segment {
    fn clone(&self) -> (out: Segment)
        ensures
            out@ == self@,
    {
        match self {
            Segment::Literal(text) => Segment::Literal(text.clone()),
            Segment::Named(name) => Segment::Named(name.clone()),
            Segment::Wildcard => Segment::Wildcard,
        }
    }
}

impl Clone for PathPattern {
    fn clone(&self) -> (out: PathPattern)
        ensures
            out@ == self@,
    {
        proof {
            use_type_invariant(self);
        }
        let mut segments: Vec<Segment> = Vec::new();
        let mut i: usize = 0;
        while i < self.segments.len()
            invariant
                i <= self.segments.len(),
                segments_view(segments@) =~= self@.take(i as int),
            decreases self.segments.len() - i,
        {
            let ghost before = segments_view(segments@);
            let segment = self.segments[i].clone();
            segments.push(segment);
            proof {
                assert(segments_view(segments@) =~= before.push(segment@));
                assert(self@.take(i + 1) =~= self@.take(i as int).push(self@[i as int]));
            }
            i = i + 1;
        }
        assert(self@.take(self@.len() as int) =~= self@);
        PathPattern { segments }
    }
}

impl Segment {
    /// Reads one segment of a pattern text.
    pub fn parse(text: &str) -> (out: Segment)
        ensures
            out@ == segment_of(text@),
    {
        proof {
            reveal_strlit("*");
            assert("*"@ =~= wildcard_key());
        }
        if str_eq(text, "*") {
            return Segment::Wildcard;
        }
        let n = text.unicode_len();
        if n > 0 && text.get_char(0) == ':' {
            let name = text.substring_char(1, n);
            proof {
                assert(text@.subrange(1, n as int) =~= text@.skip(1));
            }
            Segment::Named(name.to_owned())
        } else {
            Segment::Literal(text.to_owned())
        }
    }

    /// Whether this is the wildcard.
    pub fn is_wildcard(&self) -> (out: bool)
        ensures
            out == (self@ is Wildcard),
    {
        match self {
            Segment::Wildcard => true,
            _ => false,
        }
    }

    /// Whether this is a literal segment.
    pub fn is_literal(&self) -> (out: bool)
        ensures
            out == (self@ is Literal),
    {
        match self {
            Segment::Literal(_) => true,
            _ => false,
        }
    }
}

impl PathPattern {
    #[verifier::type_invariant]
    spec fn inv(self) -> bool {
        wildcard_last(segments_view(self.segments@))
    }

    /// Makes a pattern of the given segments; refused where a wildcard
    /// stands before the last segment.
    pub fn from_segments(segments: Vec<Segment>) -> (out: Result<PathPattern, PatternError>)
        ensures
            match out {
                Ok(pattern) => pattern@ == segments_view(segments@) && wildcard_last(pattern@),
                Err(error) => error == PatternError::MisplacedWildcard && !wildcard_last(
                    segments_view(segments@),
                ),
            },
    {
        let ghost view = segments_view(segments@);
        let mut i: usize = 0;
        while i < segments.len()
            invariant
                i <= segments.len(),
                view == segments_view(segments@),
                forall|j: int| 0 <= j < i && view[j] is Wildcard ==> j == view.len() - 1,
            decreases segments.len() - i,
        {
            if segments[i].is_wildcard() && i + 1 < segments.len() {
                assert(view[i as int] is Wildcard);
                return Err(PatternError::MisplacedWildcard);
            }
            i = i + 1;
        }
        Ok(PathPattern { segments })
    }

    /// Reads a pattern such as `/items/:id` or `/files/*`: the text is split
    /// on `/`, empty pieces are dropped, and each piece is read as a
    /// segment.
    pub fn parse(text: &str) -> (out: Result<PathPattern, PatternError>)
        ensures
            match out {
                Ok(pattern) => pattern@ == pattern_of(text@) && wildcard_last(pattern@),
                Err(error) => error == PatternError::MisplacedWildcard && !wildcard_last(
                    pattern_of(text@),
                ),
            },
    {
        let pieces = split_segments(text);
        let mut segments: Vec<Segment> = Vec::new();
        let mut i: usize = 0;
        while i < pieces.len()
            invariant
                i <= pieces.len(),
                strings_view(pieces@) == split_path(text@),
                segments_view(segments@) =~= pattern_of(text@).take(i as int),
            decreases pieces.len() - i,
        {
            let ghost before = segments_view(segments@);
            let segment = Segment::parse(pieces[i].as_str());
            proof {
                assert(strings_view(pieces@)[i as int] == pieces@[i as int]@);
            }
            segments.push(segment);
            proof {
                assert(segments_view(segments@) =~= before.push(segment@));
                assert(pattern_of(text@).take(i + 1) =~= pattern_of(text@).take(i as int).push(
                    pattern_of(text@)[i as int],
                ));
            }
            i = i + 1;
        }
        proof {
            assert(pattern_of(text@).take(pieces.len() as int) =~= pattern_of(text@));
        }
        PathPattern::from_segments(segments)
    }

    /// The number of segments.
    pub fn len(&self) -> (n: usize)
        ensures
            n == self@.len(),
            wildcard_last(self@),
    {
        proof {
            use_type_invariant(self);
        }
        self.segments.len()
    }

    /// The segments in order.
    pub fn segments(&self) -> (out: &Vec<Segment>)
        ensures
            segments_view(out@) == self@,
            wildcard_last(self@),
    {
        proof {
            use_type_invariant(self);
        }
        &self.segments
    }

    /// The number of literal segments before the first variable one; a
    /// route with more of them is preferred.
    pub fn literal_prefix(&self) -> (n: usize)
        ensures
            n == literal_prefix_len(self@),
    {
        let mut i: usize = 0;
        assert(self@.skip(0) =~= self@);
        while i < self.segments.len()
            invariant
                i <= self.segments.len(),
                literal_prefix_len(self@) == i + literal_prefix_len(self@.skip(i as int)),
            decreases self.segments.len() - i,
        {
            let ghost rest = self@.skip(i as int);
            assert(rest[0] == self.segments@[i as int]@);
            if !self.segments[i].is_literal() {
                return i;
            }
            assert(rest.drop_first() =~= self@.skip(i + 1));
            i = i + 1;
        }
        i
    }

    /// Binds the pattern against the segments of a path.
    pub fn bind(&self, segs: &Vec<String>) -> (out: Option<PathParams>)
        ensures
            match out {
                Some(params) => bind(self@, strings_view(segs@)) == Some(params@),
                None => bind(self@, strings_view(segs@)) is None,
            },
    {
        let ghost pat = self@;
        let ghost path = strings_view(segs@);
        let mut acc = ParamMap::new();
        let mut i: usize = 0;
        while i < self.segments.len()
            invariant
                i <= self.segments.len(),
                i <= segs.len(),
                pat == self@,
                path == strings_view(segs@),
                bind(pat, path) == bind_from(pat, path, i as int, acc@),
            decreases self.segments.len() - i,
        {
            assert(pat[i as int] == self.segments@[i as int]@);
            match &self.segments[i] {
                Segment::Wildcard => {
                    let rest = join_segments(segs, i);
                    proof {
                        reveal_strlit("*");
                        assert("*"@ =~= wildcard_key());
                    }
                    acc.insert("*".to_owned(), rest);
                    return Some(acc);
                },
                Segment::Literal(text) => {
                    if i < segs.len() && str_eq(segs[i].as_str(), text.as_str()) {
                    } else {
                        return None;
                    }
                },
                Segment::Named(name) => {
                    if i < segs.len() {
                        acc.insert(name.clone(), segs[i].clone());
                    } else {
                        return None;
                    }
                },
            }
            i = i + 1;
        }
        if segs.len() == self.segments.len() {
            Some(acc)
        } else {
            None
        }
    }
}

} // verus!
