//! Broadcast paths.
//!
//! A path is a list of parts. Its text joins them with single slashes; reading a text
//! drops leading, trailing and repeated slashes, so `"/a//b/"` and `"a/b"` are the same
//! path.

use vstd::prelude::*;
use vstd::string::*;

use crate::coding::decode::{Decode, DecodeError, Wire};
use crate::coding::encode::{Encode, EncodeError, RoundTrip};
use crate::lite::Version;

verus! {

/// Whether `part` can be one part of a path: not empty, and without a slash.
pub open spec fn valid_part(part: Seq<char>) -> bool {
    part.len() > 0 && !part.contains('/')
}

/// Whether every part of `parts` can be one.
pub open spec fn valid_parts(parts: Seq<Seq<char>>) -> bool {
    forall|i: int| 0 <= i < parts.len() ==> valid_part(#[trigger] parts[i])
}

/// The part `part`, unless it is empty.
pub open spec fn part_of(part: Seq<char>) -> Seq<Seq<char>> {
    if part.len() == 0 {
        seq![]
    } else {
        seq![part]
    }
}

/// The parts of `part` followed by `text`: the maximal runs without a slash.
pub open spec fn split_from(part: Seq<char>, text: Seq<char>) -> Seq<Seq<char>>
    decreases text.len(),
{
    if text.len() == 0 {
        part_of(part)
    } else if text[0] == '/' {
        part_of(part) + split_from(seq![], text.skip(1))
    } else {
        split_from(part.push(text[0]), text.skip(1))
    }
}

/// The parts of `text`: its maximal runs without a slash.
pub open spec fn split_path(text: Seq<char>) -> Seq<Seq<char>> {
    split_from(seq![], text)
}

/// The text of a path: its parts, joined with slashes.
pub open spec fn join_path(parts: Seq<Seq<char>>) -> Seq<char>
    decreases parts.len(),
{
    if parts.len() == 0 {
        seq![]
    } else if parts.len() == 1 {
        parts[0]
    } else {
        parts[0] + seq!['/'] + join_path(parts.skip(1))
    }
}

proof fn split_run(part: Seq<char>, run: Seq<char>, text: Seq<char>)
    requires
        !run.contains('/'),
    ensures
        split_from(part, run + text) == split_from(part + run, text),
    decreases run.len(),
{
    if run.len() == 0 {
        assert(run + text =~= text);
        assert(part + run =~= part);
    } else {
        assert(run.contains(run[0]));
        assert((run + text)[0] == run[0]);
        assert((run + text).skip(1) =~= run.skip(1) + text);
        assert forall|c: char| run.skip(1).contains(c) implies run.contains(c) by {
            let i = choose|i: int| 0 <= i < run.skip(1).len() && run.skip(1)[i] == c;
            assert(run[i + 1] == c);
        }
        split_run(part.push(run[0]), run.skip(1), text);
        assert(part.push(run[0]) + run.skip(1) =~= part + run);
    }
}

proof fn split_from_valid(part: Seq<char>, text: Seq<char>)
    requires
        !part.contains('/'),
    ensures
        valid_parts(split_from(part, text)),
    decreases text.len(),
{
    if text.len() == 0 {
    } else if text[0] == '/' {
        split_from_valid(seq![], text.skip(1));
    } else {
        assert forall|i: int| 0 <= i < part.push(text[0]).len() implies part.push(text[0])[i]
            != '/' by {
            if i < part.len() {
                assert(part.contains(part[i]));
            }
        }
        split_from_valid(part.push(text[0]), text.skip(1));
    }
}

/// Reading the text of a path gives its parts back.
pub proof fn path_text_round_trip(parts: Seq<Seq<char>>)
    requires
        valid_parts(parts),
    ensures
        split_path(join_path(parts)) == parts,
    decreases parts.len(),
{
    if parts.len() == 0 {
        assert(split_path(join_path(parts)) =~= parts);
    } else {
        let head = parts[0];
        assert(valid_part(head));
        if parts.len() == 1 {
            split_run(seq![], head, seq![]);
            assert(head + Seq::<char>::empty() =~= head);
            assert(Seq::<char>::empty() + head =~= head);
            assert(split_path(join_path(parts)) =~= parts);
        } else {
            let rest = parts.skip(1);
            let tail = seq!['/'] + join_path(rest);
            assert forall|i: int| 0 <= i < rest.len() implies valid_part(#[trigger] rest[i]) by {
                assert(rest[i] == parts[i + 1]);
            }
            path_text_round_trip(rest);
            split_run(seq![], head, tail);
            assert(head + seq!['/'] + join_path(rest) =~= head + tail);
            assert(Seq::<char>::empty() + head =~= head);
            assert(tail.skip(1) =~= join_path(rest));
            assert(split_path(join_path(parts)) =~= parts);
        }
    }
}

/// The text of a path is normal: reading and writing it again changes nothing.
pub proof fn path_text_normal(text: Seq<char>)
    ensures
        valid_parts(split_path(text)),
        split_path(join_path(split_path(text))) == split_path(text),
{
    split_from_valid(seq![], text);
    path_text_round_trip(split_path(text));
}

/// A path that comes off the wire is within the wire limit, and so can be sent on.
pub proof fn decoded_path_is_within_the_limit(bytes: Seq<u8>, version: Version)
    ensures
        Path::parse(bytes, version).0 matches Ok(parts) ==> Path::legal(parts),
{
    match String::parse(bytes, version) {
        (Ok(text), _) => path_text_normal(text),
        _ => {},
    }
}

/// A broadcast path.
#[derive(Debug, PartialEq, Eq, Hash)]
pub struct Path {
    parts: Vec<String>,
}

impl View for Path {
    type V = Seq<Seq<char>>;

    closed spec fn view(&self) -> Seq<Seq<char>> {
        self.parts@.map_values(|part: String| part@)
    }
}

impl Clone for Path {
    fn clone(&self) -> (r: Path)
        ensures
            r@ == self@,
    {
        proof {
            use_type_invariant(self);
        }
        self.skip(0)
    }
}

impl Path {
    /// The most parts that a path may have when it is published, or on the wire.
    pub const MAX_PARTS: usize = 32;

    #[verifier::type_invariant]
    closed spec fn well_formed(self) -> bool {
        valid_parts(self@)
    }

    /// The path with no parts.
    pub fn empty() -> (r: Path)
        ensures
            r@ == Seq::<Seq<char>>::empty(),
            valid_parts(r@),
    {
        let parts: Vec<String> = Vec::new();
        assert(parts@.map_values(|part: String| part@) =~= Seq::<Seq<char>>::empty());
        Path { parts }
    }

    /// The path with the given text.
    pub fn new(text: &str) -> (r: Path)
        ensures
            r@ == split_path(text@),
            valid_parts(r@),
    {
        let len: usize = text.unicode_len();
        let mut parts: Vec<String> = Vec::new();
        let mut start: usize = 0;
        let mut i: usize = 0;
        let ghost all = split_path(text@);
        proof {
            assert(text@.skip(0) =~= text@);
            assert(text@.subrange(0, 0) =~= seq![]);
            assert(parts@.map_values(|part: String| part@) =~= seq![]);
            assert(all =~= Seq::<Seq<char>>::empty() + all);
        }
        while i < len
            invariant
                start <= i <= len,
                len == text@.len(),
                all == split_path(text@),
                all == parts@.map_values(|part: String| part@) + split_from(
                    text@.subrange(start as int, i as int),
                    text@.skip(i as int),
                ),
            decreases len - i,
        {
            let ghost run = text@.subrange(start as int, i as int);
            let ghost before = parts@.map_values(|part: String| part@);
            let c: char = text.get_char(i);
            assert(text@.skip(i as int)[0] == c);
            assert(text@.skip(i as int).skip(1) =~= text@.skip(i + 1));
            if c == '/' {
                if start < i {
                    let part: String = text.substring_char(start, i).to_owned();
                    parts.push(part);
                    assert(parts@.map_values(|part: String| part@) =~= before.push(run));
                    assert(before + (seq![run] + split_from(seq![], text@.skip(i + 1)))
                        =~= before.push(run) + split_from(seq![], text@.skip(i + 1)));
                } else {
                    assert(part_of(run) =~= seq![]);
                    assert(before + (part_of(run) + split_from(seq![], text@.skip(i + 1)))
                        =~= before + split_from(seq![], text@.skip(i + 1)));
                }
                start = i + 1;
                assert(text@.subrange(start as int, i + 1) =~= seq![]);
            } else {
                assert(text@.subrange(start as int, i + 1) =~= run.push(c));
            }
            i += 1;
        }
        assert(text@.skip(i as int) =~= seq![]);
        let ghost run = text@.subrange(start as int, i as int);
        let ghost before = parts@.map_values(|part: String| part@);
        if start < len {
            let part: String = text.substring_char(start, len).to_owned();
            parts.push(part);
            assert(parts@.map_values(|part: String| part@) =~= before + seq![run]);
        } else {
            assert(before + part_of(run) =~= before);
        }
        proof {
            split_from_valid(seq![], text@);
        }
        Path { parts }
    }

    /// The text of the path.
    pub fn to_text(&self) -> (r: String)
        ensures
            r@ == join_path(self@),
    {
        let len: usize = self.parts.len();
        if len == 0 {
            return String::new();
        }
        let mut i: usize = len - 1;
        let mut text: String = self.parts[i].clone();
        proof {
            assert(self@.skip(i as int) =~= seq![self@[i as int]]);
        }
        while i > 0
            invariant
                i < len,
                len == self.parts.len(),
                len == self@.len(),
                text@ == join_path(self@.skip(i as int)),
            decreases i,
        {
            i -= 1;
            let ghost rest = self@.skip(i as int);
            let head: String = self.parts[i].clone();
            assert(rest[0] == head@);
            assert(rest.skip(1) =~= self@.skip(i + 1));
            text = head.concat("/").concat(text.as_str());
            proof {
                reveal_strlit("/");
                assert("/"@ =~= seq!['/']);
            }
        }
        assert(self@.skip(0) =~= self@);
        text
    }

    /// The number of parts.
    pub fn len(&self) -> (r: usize)
        ensures
            r == self@.len(),
    {
        self.parts.len()
    }

    /// Whether the path has no parts.
    pub fn is_empty(&self) -> (r: bool)
        ensures
            r == (self@.len() == 0),
    {
        self.parts.len() == 0
    }

    /// The part at `index`.
    pub fn part(&self, index: usize) -> (r: String)
        requires
            index < self@.len(),
        ensures
            r@ == self@[index as int],
            valid_part(r@),
    {
        proof {
            use_type_invariant(self);
            assert(valid_part(self@[index as int]));
        }
        self.parts[index].clone()
    }

    /// Every path is well-formed.
    pub fn valid(&self)
        ensures
            valid_parts(self@),
    {
        proof {
            use_type_invariant(self);
        }
    }

    /// Whether two paths are the same.
    pub fn same(&self, other: &Path) -> (r: bool)
        ensures
            r == (self@ == other@),
    {
        if self.parts.len() != other.parts.len() {
            return false;
        }
        let r: bool = self.has_prefix(other);
        assert(r ==> self@ =~= other@);
        r
    }

    /// Whether the path starts with the parts of `prefix`.
    pub fn has_prefix(&self, prefix: &Path) -> (r: bool)
        ensures
            r == prefix@.is_prefix_of(self@),
    {
        if prefix.parts.len() > self.parts.len() {
            return false;
        }
        let mut i: usize = 0;
        while i < prefix.parts.len()
            invariant
                i <= prefix.parts.len() <= self.parts.len(),
                forall|j: int| 0 <= j < i ==> prefix@[j] == self@[j],
            decreases prefix.parts.len() - i,
        {
            if self.parts[i] != prefix.parts[i] {
                assert(self@[i as int] != prefix@[i as int]);
                return false;
            }
            assert(self@[i as int] == prefix@[i as int]);
            i += 1;
        }
        assert(prefix@.is_prefix_of(self@));
        true
    }

    /// The path without its first `count` parts.
    pub fn skip(&self, count: usize) -> (r: Path)
        requires
            count <= self@.len(),
        ensures
            r@ == self@.skip(count as int),
            valid_parts(r@),
    {
        proof {
            use_type_invariant(self);
        }
        let mut parts: Vec<String> = Vec::new();
        let mut i: usize = count;
        while i < self.parts.len()
            invariant
                count <= i <= self.parts.len(),
                parts@.len() == i - count,
                forall|j: int| 0 <= j < parts@.len() ==> (#[trigger] parts@[j])@ == self@[j + count],
            decreases self.parts.len() - i,
        {
            parts.push(self.parts[i].clone());
            i += 1;
        }
        assert(parts@.map_values(|part: String| part@) =~= self@.skip(count as int));
        assert forall|j: int| 0 <= j < self@.skip(count as int).len() implies valid_part(
            #[trigger] self@.skip(count as int)[j],
        ) by {
            assert(self@.skip(count as int)[j] == self@[j + count]);
        }
        Path { parts }
    }

    /// What follows `prefix`, if the path starts with it.
    pub fn strip_prefix(&self, prefix: &Path) -> (r: Option<Path>)
        ensures
            r is Some <==> prefix@.is_prefix_of(self@),
            r matches Some(rest) ==> rest@ == self@.skip(prefix@.len() as int),
    {
        if self.has_prefix(prefix) {
            Some(self.skip(prefix.parts.len()))
        } else {
            None
        }
    }

    /// The parts of this path, then those of `other`.
    pub fn join(&self, other: &Path) -> (r: Path)
        ensures
            r@ == self@ + other@,
            valid_parts(r@),
    {
        proof {
            use_type_invariant(self);
            use_type_invariant(other);
        }
        let mut parts: Vec<String> = Vec::new();
        let mut i: usize = 0;
        while i < self.parts.len()
            invariant
                i <= self.parts.len(),
                parts@.len() == i,
                forall|j: int| 0 <= j < parts@.len() ==> (#[trigger] parts@[j])@ == self@[j],
            decreases self.parts.len() - i,
        {
            parts.push(self.parts[i].clone());
            i += 1;
        }
        let mut k: usize = 0;
        while k < other.parts.len()
            invariant
                k <= other.parts.len(),
                parts@.len() == self@.len() + k,
                forall|j: int|
                    0 <= j < parts@.len() ==> (#[trigger] parts@[j])@ == (self@ + other@)[j],
            decreases other.parts.len() - k,
        {
            parts.push(other.parts[k].clone());
            k += 1;
        }
        assert(parts@.map_values(|part: String| part@) =~= self@ + other@);
        assert forall|j: int| 0 <= j < (self@ + other@).len() implies valid_part(
            #[trigger] (self@ + other@)[j],
        ) by {
            if j < self@.len() {
                assert((self@ + other@)[j] == self@[j]);
            } else {
                assert((self@ + other@)[j] == other@[j - self@.len()]);
            }
        }
        Path { parts }
    }
}

impl Wire for Path {
    type Model = Seq<Seq<char>>;

    open spec fn model(&self) -> Seq<Seq<char>> {
        self@
    }
}

impl Decode for Path {
    /// The text of the path, as a string. A path of more than [`Path::MAX_PARTS`] parts is
    /// refused.
    open spec fn parse(bytes: Seq<u8>, version: Version) -> (
        Result<Seq<Seq<char>>, DecodeError>,
        Seq<u8>,
    ) {
        match String::parse(bytes, version) {
            (Ok(text), rest) => if split_path(text).len() > Path::MAX_PARTS {
                (Err(DecodeError::BoundsExceeded), rest)
            } else {
                (Ok(split_path(text)), rest)
            },
            (Err(e), rest) => (Err(e), rest),
        }
    }

    fn decode(buf: &mut &[u8], version: Version) -> (r: Result<Path, DecodeError>) {
        let text: String = String::decode(buf, version)?;
        let path: Path = Path::new(text.as_str());
        if path.parts.len() > Path::MAX_PARTS {
            return Err(DecodeError::BoundsExceeded);
        }
        Ok(path)
    }
}

impl Encode for Path {
    /// The text of the path, as a string. A path of more than [`Path::MAX_PARTS`] parts is
    /// refused.
    open spec fn print(model: Seq<Seq<char>>, version: Version) -> Result<Seq<u8>, EncodeError> {
        if model.len() > Path::MAX_PARTS {
            Err(EncodeError::BoundsExceeded)
        } else {
            String::print(join_path(model), version)
        }
    }

    fn encode(&self, buf: &mut Vec<u8>, version: Version) -> (r: Result<(), EncodeError>) {
        if self.parts.len() > Path::MAX_PARTS {
            return Err(EncodeError::BoundsExceeded);
        }
        self.to_text().encode(buf, version)
    }
}

impl RoundTrip for Path {
    open spec fn legal(model: Seq<Seq<char>>) -> bool {
        valid_parts(model) && model.len() <= Path::MAX_PARTS
    }

    open spec fn carried(model: Seq<Seq<char>>, version: Version) -> Seq<Seq<char>> {
        model
    }

    proof fn round_trip(model: Seq<Seq<char>>, version: Version, rest: Seq<u8>) {
        String::round_trip(join_path(model), version, rest);
        path_text_round_trip(model);
    }
}

/// A path is what stands between the slashes, however many there are: text without one is a single
/// part, or none if it is empty, and a slash ends one part and starts the next.
pub proof fn slashes_separate_parts(a: Seq<char>, b: Seq<char>)
    requires
        !a.contains('/'),
    ensures
        split_path(a) == if a.len() == 0 {
            Seq::<Seq<char>>::empty()
        } else {
            seq![a]
        },
        split_path(a + seq!['/'] + b) == split_path(a) + split_path(b),
{
    let none = Seq::<char>::empty();
    split_run(none, a, none);
    assert(a + none =~= a);
    assert(none + a =~= a);
    let rest = seq!['/'] + b;
    split_run(none, a, rest);
    assert(a + seq!['/'] + b =~= a + rest);
    assert(rest.skip(1) =~= b);
    assert(rest[0] == '/');
}

/// The text of a path is its parts with a slash between each two.
pub proof fn paths_join_with_slashes(part: Seq<char>, rest: Seq<Seq<char>>)
    ensures
        join_path(Seq::empty()) == Seq::<char>::empty(),
        join_path(seq![part]) == part,
        rest.len() > 0 ==> join_path(seq![part] + rest) == part + seq!['/'] + join_path(rest),
{
    if rest.len() > 0 {
        assert((seq![part] + rest).skip(1) =~= rest);
    }
}

} // verus!
