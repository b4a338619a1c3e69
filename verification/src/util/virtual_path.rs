use vstd::prelude::*;
use vstd::std_specs::cmp::PartialEqSpecImpl;

verus! {

/// Whether a segment of a path names the directory it stands in.
pub open spec fn is_current(segment: Seq<char>) -> bool {
    segment =~= seq!['.']
}

/// Whether a segment of a path names the parent directory.
pub open spec fn is_parent(segment: Seq<char>) -> bool {
    segment =~= seq!['.', '.']
}

/// The retained segments after one more segment: an empty segment and the current
/// directory change nothing, the parent directory removes the segment retained last, if
/// there is one, and any other segment is retained.
pub open spec fn retain(parts: Seq<Seq<char>>, segment: Seq<char>) -> Seq<Seq<char>> {
    if segment.len() == 0 || is_current(segment) {
        parts
    } else if is_parent(segment) {
        if parts.len() > 0 {
            parts.drop_last()
        } else {
            parts
        }
    } else {
        parts.push(segment)
    }
}

/// The state after reading a path from the left: the segments retained from those that a
/// slash has closed, and the segment that is still open.
pub open spec fn scan(path: Seq<char>) -> (Seq<Seq<char>>, Seq<char>)
    decreases path.len(),
{
    if path.len() == 0 {
        (Seq::empty(), Seq::empty())
    } else {
        let (parts, open) = scan(path.drop_last());
        if path.last() == '/' {
            (retain(parts, open), Seq::empty())
        } else {
            (parts, open.push(path.last()))
        }
    }
}

/// The segments that a path retains.
pub open spec fn components(path: Seq<char>) -> Seq<Seq<char>> {
    retain(scan(path).0, scan(path).1)
}

/// Segments joined by slashes.
pub open spec fn join(parts: Seq<Seq<char>>) -> Seq<char>
    decreases parts.len(),
{
    if parts.len() == 0 {
        Seq::empty()
    } else if parts.len() == 1 {
        parts[0]
    } else {
        join(parts.drop_last()) + seq!['/'] + parts.last()
    }
}

/// The canonical form of a path: its retained segments, joined by slashes.
pub open spec fn normalize(path: Seq<char>) -> Seq<char> {
    join(components(path))
}

/// Whether a segment is one that a path retains: not empty, neither of the two directory
/// markers, and free of slashes.
pub open spec fn is_plain(segment: Seq<char>) -> bool {
    &&& segment.len() > 0
    &&& !is_current(segment)
    &&& !is_parent(segment)
    &&& forall|i: int| 0 <= i < segment.len() ==> segment[i] != '/'
}

/// Whether all segments are ones that a path retains.
pub open spec fn all_plain(parts: Seq<Seq<char>>) -> bool {
    forall|i: int| 0 <= i < parts.len() ==> is_plain(#[trigger] parts[i])
}

/// Reading a path leaves only segments that a path retains, and an open segment without a
/// slash.
pub proof fn lemma_scan_is_plain(path: Seq<char>)
    ensures
        all_plain(scan(path).0),
        forall|i: int| 0 <= i < scan(path).1.len() ==> scan(path).1[i] != '/',
        all_plain(components(path)),
    decreases path.len(),
{
    if path.len() > 0 {
        lemma_scan_is_plain(path.drop_last());
    }
}

/// Reading on over a run of characters without a slash only extends the open segment.
pub proof fn lemma_scan_segment(path: Seq<char>, segment: Seq<char>)
    requires
        forall|i: int| 0 <= i < segment.len() ==> segment[i] != '/',
    ensures
        scan(path + segment) == (scan(path).0, scan(path).1 + segment),
    decreases segment.len(),
{
    if segment.len() == 0 {
        assert(path + segment =~= path);
        assert(scan(path).1 + segment =~= scan(path).1);
    } else {
        lemma_scan_segment(path, segment.drop_last());
        assert((path + segment).drop_last() =~= path + segment.drop_last());
        assert((scan(path).1 + segment.drop_last()).push(segment.last()) =~= scan(path).1
            + segment);
    }
}

/// Reading retained segments joined by slashes gives these segments back: all but the
/// last are closed, and the last is open.
pub proof fn lemma_scan_join(parts: Seq<Seq<char>>)
    requires
        all_plain(parts),
        parts.len() > 0,
    ensures
        scan(join(parts)) == (parts.drop_last(), parts.last()),
    decreases parts.len(),
{
    let empty = Seq::<char>::empty();
    if parts.len() == 1 {
        lemma_scan_segment(empty, parts[0]);
        assert(empty + parts[0] =~= parts[0]);
        assert(parts.drop_last() =~= Seq::<Seq<char>>::empty());
    } else {
        let front = parts.drop_last();
        assert(all_plain(front));
        lemma_scan_join(front);
        let closed = join(front) + seq!['/'];
        assert(closed.drop_last() =~= join(front));
        assert(is_plain(front.last()));
        assert(front.drop_last().push(front.last()) =~= front);
        assert(scan(closed) == (front, empty));
        assert(is_plain(parts.last()));
        lemma_scan_segment(closed, parts.last());
        assert(empty + parts.last() =~= parts.last());
    }
}

/// The segments that a normalized path retains are the segments it was joined from.
pub proof fn lemma_components_of_join(parts: Seq<Seq<char>>)
    requires
        all_plain(parts),
    ensures
        components(join(parts)) == parts,
{
    if parts.len() > 0 {
        lemma_scan_join(parts);
        assert(is_plain(parts.last()));
        assert(parts.drop_last().push(parts.last()) =~= parts);
    }
}

/// Normalizing is idempotent: a normalized path is its own normal form.
pub proof fn lemma_normalize_idempotent(path: Seq<char>)
    ensures
        normalize(normalize(path)) == normalize(path),
{
    lemma_scan_is_plain(path);
    lemma_components_of_join(components(path));
}

/// Retained segments joined by slashes begin with the first character of the first segment
/// and end with the last character of the last one.
pub proof fn lemma_join_ends(parts: Seq<Seq<char>>)
    requires
        all_plain(parts),
        parts.len() > 0,
    ensures
        join(parts).len() > 0,
        join(parts).first() == parts.first().first(),
        join(parts).last() == parts.last().last(),
    decreases parts.len(),
{
    assert(is_plain(parts.last()));
    if parts.len() > 1 {
        assert(all_plain(parts.drop_last()));
        lemma_join_ends(parts.drop_last());
    }
}

/// A normalized path neither begins nor ends with a slash.
pub proof fn lemma_normalize_has_no_outer_slash(path: Seq<char>)
    ensures
        normalize(path).len() > 0 ==> normalize(path).first() != '/' && normalize(path).last()
            != '/',
{
    lemma_scan_is_plain(path);
    let parts = components(path);
    if parts.len() > 0 {
        lemma_join_ends(parts);
        assert(is_plain(parts.first()));
        assert(is_plain(parts.last()));
    }
}

/// The root, the current directory and the parent directory all normalize to the empty
/// path.
pub proof fn lemma_normalize_of_markers()
    ensures
        normalize(seq!['/']) == Seq::<char>::empty(),
        normalize(seq!['.']) == Seq::<char>::empty(),
        normalize(seq!['.', '.']) == Seq::<char>::empty(),
{
    let empty = Seq::<char>::empty();
    lemma_scan_segment(empty, seq!['.']);
    lemma_scan_segment(empty, seq!['.', '.']);
    assert(empty + seq!['.'] =~= seq!['.']);
    assert(empty + seq!['.', '.'] =~= seq!['.', '.']);
    assert(seq!['/'].drop_last() =~= empty);
    assert(empty + seq!['.'] =~= seq!['.']);
    assert(retain(Seq::<Seq<char>>::empty(), empty) =~= Seq::<Seq<char>>::empty());
}

/// The texts of a list of strings.
pub open spec fn texts(parts: Seq<String>) -> Seq<Seq<char>> {
    parts.map_values(|part: String| part@)
}

/// A virtual path. Unlike a path on a file system, it is always properly normalized and
/// valid Unicode.
#[derive(Debug, PartialOrd, Ord)]
pub struct VirtualPath(String);

impl View for VirtualPath {
    type V = Seq<char>;

    closed spec fn view(&self) -> Seq<char> {
        self.0@
    }
}

impl VirtualPath {
    #[verifier::type_invariant]
    spec fn is_normalized(self) -> bool {
        normalize(self.0@) == self.0@
    }

    /// Generates a virtual path from a path in any notation.
    pub fn from(value: &str) -> (path: VirtualPath)
        ensures
            path@ == normalize(value@),
    {
        let mut parts: Vec<String> = Vec::new();
        let mut open = String::new();
        let characters = value.chars();
        for character in iter: characters
            invariant
                iter.seq() == value@,
                (texts(parts@), open@) == scan(value@.take(iter.index())),
        {
            proof {
                assert(value@.take(iter.index() + 1).drop_last() =~= value@.take(iter.index()));
            }
            if character == '/' {
                close(&mut parts, open);
                open = String::new();
            } else {
                open.push(character);
            }
        }
        proof {
            assert(value@.take(value@.len() as int) =~= value@);
        }
        close(&mut parts, open);
        proof {
            lemma_normalize_idempotent(value@);
        }
        VirtualPath(joined(&parts))
    }

    /// The normalized path as text: a text that is its own normal form.
    pub fn as_ref(&self) -> (text: &str)
        ensures
            text@ == self@,
            normalize(text@) == text@,
    {
        proof {
            use_type_invariant(self);
        }
        self.0.as_str()
    }
}

impl Clone for VirtualPath {
    fn clone(&self) -> (copy: VirtualPath)
        ensures
            copy@ == self@,
    {
        proof {
            use_type_invariant(self);
        }
        VirtualPath(self.0.clone())
    }
}

impl PartialEq for VirtualPath {
    fn eq(&self, other: &VirtualPath) -> (equal: bool) {
        PartialEq::eq(self.0.as_str(), other.0.as_str())
    }
}

impl PartialEqSpecImpl for VirtualPath {
    open spec fn obeys_eq_spec() -> bool {
        true
    }

    open spec fn eq_spec(&self, other: &VirtualPath) -> bool {
        self@ == other@
    }
}

impl Eq for VirtualPath {

}

impl<'a> PartialEq<&'a str> for VirtualPath {
    fn eq(&self, other: &&'a str) -> (equal: bool) {
        PartialEq::eq(self.0.as_str(), *other)
    }
}

impl<'a> PartialEqSpecImpl<&'a str> for VirtualPath {
    open spec fn obeys_eq_spec() -> bool {
        true
    }

    open spec fn eq_spec(&self, other: &&'a str) -> bool {
        self@ == other@
    }
}

/// Closes a segment: retains it, drops it, or drops the segment retained last.
fn close(parts: &mut Vec<String>, segment: String)
    ensures
        texts(final(parts)@) == retain(texts(old(parts)@), segment@),
{
    let length = segment.as_str().unicode_len();
    let current = length == 1 && segment.as_str().get_char(0) == '.';
    let parent = length == 2 && segment.as_str().get_char(0) == '.' && segment.as_str().get_char(1)
        == '.';
    if length == 0 || current {
    } else if parent {
        if parts.len() > 0 {
            parts.pop();
            assert(texts(parts@) =~= texts(old(parts)@).drop_last());
        }
    } else {
        parts.push(segment);
        assert(texts(parts@) =~= texts(old(parts)@).push(segment@));
    }
}

/// Joins segments by slashes.
fn joined(parts: &Vec<String>) -> (text: String)
    ensures
        text@ == join(texts(parts@)),
{
    let mut text = String::new();
    let mut index: usize = 0;
    while index < parts.len()
        invariant
            index <= parts.len(),
            text@ == join(texts(parts@).take(index as int)),
        decreases parts.len() - index,
    {
        proof {
            assert(texts(parts@).take(index + 1).drop_last() =~= texts(parts@).take(index as int));
            assert(texts(parts@).take(index + 1).last() == parts@[index as int]@);
        }
        if index > 0 {
            text.push('/');
        }
        text.append(parts[index].as_str());
        index = index + 1;
        assert(text@ =~= join(texts(parts@).take(index as int)));
    }
    proof {
        assert(texts(parts@).take(parts@.len() as int) =~= texts(parts@));
    }
    text
}

} // verus!
