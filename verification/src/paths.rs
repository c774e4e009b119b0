//! Unix path components, as `std::path::Path::components` documents them:
//! a leading `/` is the root, repeated separators are ignored, `.` is
//! dropped except at the start of a relative path, and `..` is a parent
//! component.
use vstd::prelude::*;
use vstd::string::*;
use crate::text::{chars_of, push_char};


verus! {

/// One component of a path.
pub enum PathPart {
    Root,
    Current,
    Parent,
    Normal(Seq<char>),
}

/// An executable path component; its view is a [`PathPart`].
#[derive(Debug)]
pub enum Component {
    RootDir,
    CurDir,
    ParentDir,
    Normal(Vec<char>),
}

impl View for Component {
    type V = PathPart;

    open spec fn view(&self) -> PathPart {
        match self {
            Component::RootDir => PathPart::Root,
            Component::CurDir => PathPart::Current,
            Component::ParentDir => PathPart::Parent,
            Component::Normal(v) => PathPart::Normal(v@),
        }
    }
}

/// Splits `s` at every `sep`; `cur` is the piece being read.
pub open spec fn split_from(s: Seq<char>, sep: char, cur: Seq<char>) -> Seq<Seq<char>>
    decreases s.len(),
{
    if s.len() == 0 {
        seq![cur]
    } else if s[0] == sep {
        seq![cur] + split_from(s.drop_first(), sep, Seq::empty())
    } else {
        split_from(s.drop_first(), sep, cur.push(s[0]))
    }
}

/// `str::split` with a character separator: `n` separators give `n + 1`
/// pieces.
pub open spec fn split_on(s: Seq<char>, sep: char) -> Seq<Seq<char>> {
    split_from(s, sep, Seq::empty())
}

/// The component that a non-empty segment other than `.` stands for.
pub open spec fn segment_part(seg: Seq<char>) -> PathPart {
    if seg == seq!['.', '.'] {
        PathPart::Parent
    } else {
        PathPart::Normal(seg)
    }
}

/// The components that a list of segments gives: empty and `.` segments
/// are dropped.
pub open spec fn segment_parts(segs: Seq<Seq<char>>) -> Seq<PathPart>
    decreases segs.len(),
{
    if segs.len() == 0 {
        Seq::empty()
    } else {
        let last = segs.last();
        let rest = segment_parts(segs.drop_last());
        if last.len() == 0 || last == seq!['.'] {
            rest
        } else {
            rest.push(segment_part(last))
        }
    }
}

/// `Path::is_absolute` on Unix: the path has a root.
pub open spec fn is_absolute(p: Seq<char>) -> bool {
    p.len() > 0 && p[0] == '/'
}

/// `Path::components`.
pub open spec fn path_components(p: Seq<char>) -> Seq<PathPart> {
    let segs = split_on(p, '/');
    if is_absolute(p) {
        seq![PathPart::Root] + segment_parts(segs.drop_first())
    } else if segs[0] == seq!['.'] {
        seq![PathPart::Current] + segment_parts(segs.drop_first())
    } else {
        segment_parts(segs)
    }
}

/// The character sequences held by a vector of character vectors.
pub open spec fn seqs_of(v: Seq<Vec<char>>) -> Seq<Seq<char>> {
    v.map_values(|x: Vec<char>| x@)
}

/// Splits a character slice at every `sep`.
pub fn split_chars(s: &[char], sep: char) -> (v: Vec<Vec<char>>)
    ensures
        seqs_of(v@) == split_on(s@, sep),
{
    let mut out: Vec<Vec<char>> = Vec::new();
    let mut cur: Vec<char> = Vec::new();
    let mut i: usize = 0;
    assert(s@.subrange(0, s@.len() as int) == s@);
    while i < s.len()
        invariant
            i <= s@.len(),
            seqs_of(out@) + split_from(s@.subrange(i as int, s@.len() as int), sep, cur@)
                == split_on(s@, sep),
        decreases s@.len() - i,
    {
        let ghost rest = s@.subrange(i as int, s@.len() as int);
        assert(rest.drop_first() == s@.subrange(i + 1, s@.len() as int));
        assert(rest[0] == s@[i as int]);
        let ghost before = seqs_of(out@);
        if s[i] == sep {
            let ghost piece = cur@;
            out.push(cur);
            cur = Vec::new();
            proof {
                assert(seqs_of(out@) == before.push(piece));
                assert(before + (seq![piece] + split_from(rest.drop_first(), sep, Seq::empty()))
                    == before.push(piece) + split_from(rest.drop_first(), sep, Seq::empty()));
            }
        } else {
            cur.push(s[i]);
        }
        i = i + 1;
    }
    let ghost before = seqs_of(out@);
    let ghost last = cur@;
    out.push(cur);
    assert(seqs_of(out@) == before.push(last));
    assert(s@.subrange(i as int, s@.len() as int) == Seq::<char>::empty());
    out
}


/// The components held by a vector of executable components.
pub open spec fn parts_of(v: Seq<Component>) -> Seq<PathPart> {
    v.map_values(|c: Component| c@)
}

fn is_dot(seg: &Vec<char>) -> (b: bool)
    ensures
        b == (seg@ == seq!['.']),
{
    if seg.len() == 1 && seg[0] == '.' {
        assert(seg@ =~= seq!['.']);
        true
    } else {
        false
    }
}

fn is_dot_dot(seg: &Vec<char>) -> (b: bool)
    ensures
        b == (seg@ == seq!['.', '.']),
{
    if seg.len() == 2 && seg[0] == '.' && seg[1] == '.' {
        assert(seg@ =~= seq!['.', '.']);
        true
    } else {
        false
    }
}

/// `Path::components` on a character slice.
pub fn components(p: &[char]) -> (v: Vec<Component>)
    ensures
        parts_of(v@) == path_components(p@),
{
    let segs = split_chars(p, '/');
    assert(segs@.len() > 0) by {
        assert(seqs_of(segs@).len() == split_on(p@, '/').len());
        lemma_split_nonempty(p@, '/', Seq::empty());
    }
    let mut out: Vec<Component> = Vec::new();
    let start: usize;
    if p.len() > 0 && p[0] == '/' {
        out.push(Component::RootDir);
        start = 1;
    } else if is_dot(&segs[0]) {
        out.push(Component::CurDir);
        start = 1;
    } else {
        start = 0;
    }
    let ghost head = parts_of(out@);
    let ghost all = seqs_of(segs@);
    let mut k: usize = start;
    while k < segs.len()
        invariant
            start <= k <= segs@.len(),
            all == seqs_of(segs@),
            parts_of(out@) == head + segment_parts(all.subrange(start as int, k as int)),
        decreases segs@.len() - k,
    {
        let ghost before = parts_of(out@);
        let ghost sub = all.subrange(start as int, k as int);
        let ghost next = all.subrange(start as int, k + 1);
        assert(next.drop_last() == sub);
        assert(next.last() == segs@[k as int]@);
        let seg = &segs[k];
        if seg.len() == 0 || is_dot(seg) {
        } else if is_dot_dot(seg) {
            out.push(Component::ParentDir);
            assert(parts_of(out@) == before.push(PathPart::Parent));
        } else {
            let copy = slice_of(seg);
            out.push(Component::Normal(copy));
            assert(parts_of(out@) == before.push(PathPart::Normal(seg@)));
        }
        k = k + 1;
    }
    assert(all.subrange(start as int, segs@.len() as int) == all.drop_first() || start == 0);
    assert(start == 0 ==> all.subrange(0, segs@.len() as int) == all);
    out
}

fn slice_of(v: &Vec<char>) -> (r: Vec<char>)
    ensures
        r@ == v@,
{
    let mut r: Vec<char> = Vec::new();
    let mut i: usize = 0;
    while i < v.len()
        invariant
            i <= v@.len(),
            r@ == v@.subrange(0, i as int),
        decreases v@.len() - i,
    {
        r.push(v[i]);
        i = i + 1;
    }
    assert(r@ == v@);
    r
}

/// Text without the separator is one piece.
pub proof fn lemma_split_no_sep(s: Seq<char>, sep: char, cur: Seq<char>)
    requires
        forall|i: int| 0 <= i < s.len() ==> s[i] != sep,
    ensures
        split_from(s, sep, cur) == seq![cur + s],
    decreases s.len(),
{
    if s.len() == 0 {
        assert(cur + s =~= cur);
    } else {
        lemma_split_no_sep(s.drop_first(), sep, cur.push(s[0]));
        assert(cur.push(s[0]) + s.drop_first() =~= cur + s);
    }
}

/// Splitting at the first separator: the text before it is the first piece.
pub proof fn lemma_split_at_sep(a: Seq<char>, b: Seq<char>, sep: char, cur: Seq<char>)
    requires
        forall|i: int| 0 <= i < a.len() ==> a[i] != sep,
    ensures
        split_from(a + seq![sep] + b, sep, cur) == seq![cur + a] + split_from(b, sep, Seq::empty()),
    decreases a.len(),
{
    let s = a + seq![sep] + b;
    if a.len() == 0 {
        assert(s[0] == sep);
        assert(s.drop_first() =~= b);
        assert(cur + a =~= cur);
    } else {
        assert(s[0] == a[0]);
        assert(s.drop_first() =~= a.drop_first() + seq![sep] + b);
        lemma_split_at_sep(a.drop_first(), b, sep, cur.push(a[0]));
        assert(cur.push(a[0]) + a.drop_first() =~= cur + a);
    }
}

proof fn lemma_split_nonempty(s: Seq<char>, sep: char, cur: Seq<char>)
    ensures
        split_from(s, sep, cur).len() > 0,
    decreases s.len(),
{
    if s.len() > 0 {
        lemma_split_nonempty(s.drop_first(), sep, Seq::empty());
        lemma_split_nonempty(s.drop_first(), sep, cur.push(s[0]));
    }
}


/// `Path::join`: an absolute `p` replaces `base`; otherwise `p` is
/// appended, with a `/` between them unless `base` is empty or already ends
/// in one.
pub open spec fn join(base: Seq<char>, p: Seq<char>) -> Seq<char> {
    if is_absolute(p) {
        p
    } else if base.len() == 0 || base.last() == '/' {
        base + p
    } else {
        base + seq!['/'] + p
    }
}

/// `Path::join` on strings.
pub fn join_path(base: &str, p: &str) -> (r: String)
    ensures
        r@ == join(base@, p@),
{
    let pc = chars_of(p);
    if pc.len() > 0 && pc[0] == '/' {
        return p.to_owned();
    }
    let bc = chars_of(base);
    let mut r = base.to_owned();
    if !(bc.len() == 0 || bc[bc.len() - 1] == '/') {
        push_char(&mut r, '/');
    }
    r.append(p);
    r
}

} // verus!
