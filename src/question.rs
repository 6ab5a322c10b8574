//! A question record: a domain name as length-prefixed labels ending in a
//! zero-length label, then the 16-bit query type and query class.
use vstd::prelude::*;
use crate::bits::u16_at;
use crate::error::DecodeError;

verus! {

/// Size of the query type field, in bytes.
pub const QTYPE_SIZE: usize = 2;
/// Size of the query class field, in bytes.
pub const QCLASS_SIZE: usize = 2;

/// The labels of `name`, split at each '.'. As with `str::split`, there is
/// always at least one label, and an empty name or empty parts give empty
/// labels.
pub open spec fn split_labels(name: Seq<char>) -> Seq<Seq<char>>
    decreases name.len(),
{
    if name.len() == 0 {
        seq![Seq::empty()]
    } else {
        let rest = split_labels(name.drop_last());
        if name.last() == '.' {
            rest.push(Seq::empty())
        } else {
            rest.update(rest.len() - 1, rest.last().push(name.last()))
        }
    }
}

/// The characters of a label, one byte each: the low byte of the code point.
pub open spec fn label_chars_bytes(label: Seq<char>) -> Seq<u8> {
    label.map_values(|c: char| c as u8)
}

/// Labels on the wire: for each, its length as one byte, then its bytes.
pub open spec fn labels_bytes(labels: Seq<Seq<char>>) -> Seq<u8>
    decreases labels.len(),
{
    if labels.len() == 0 {
        Seq::empty()
    } else {
        labels_bytes(labels.drop_last()) + seq![labels.last().len() as u8] + label_chars_bytes(
            labels.last(),
        )
    }
}

/// The big-endian bytes of `v`.
pub open spec fn be_bytes(v: u16) -> Seq<u8> {
    seq![(v / 256) as u8, (v % 256) as u8]
}

/// The wire form of a question for `name`, `qtype` and `qclass`.
pub open spec fn encode_question(name: Seq<char>, qtype: u16, qclass: u16) -> Seq<u8> {
    labels_bytes(split_labels(name)) + seq![0u8] + be_bytes(qtype) + be_bytes(qclass)
}

proof fn lemma_split_labels_nonempty(name: Seq<char>)
    ensures
        split_labels(name).len() >= 1,
    decreases name.len(),
{
    if name.len() > 0 {
        lemma_split_labels_nonempty(name.drop_last());
    }
}

/// Where the label sequence that starts at `i` ends: the index just past its
/// zero-length terminator, or `None` if `s` ends before the terminator.
pub open spec fn name_end(s: Seq<u8>, i: int) -> Option<int>
    decreases s.len() - i,
{
    if i < 0 || i >= s.len() {
        None
    } else if s[i] == 0 {
        Some(i + 1)
    } else if i + 1 + s[i] as int >= s.len() {
        None
    } else {
        name_end(s, i + 1 + s[i] as int)
    }
}

/// The length of the question at the start of `s`: its labels, terminator,
/// query type and query class; `None` if `s` ends before all of them.
pub open spec fn question_len(s: Seq<u8>) -> Option<int> {
    match name_end(s, 0) {
        Some(e) => if e + 4 <= s.len() {
            Some(e + 4)
        } else {
            None
        },
        None => None,
    }
}

/// The characters that the bytes `b` stand for: each byte is read as the
/// character with that code.
pub open spec fn bytes_chars(b: Seq<u8>) -> Seq<char> {
    b.map_values(|x: u8| x as char)
}

/// The dotted name spelled by the labels of `f` from index `i` on, up to the
/// zero-length terminator. A '.' follows a label only where another label
/// follows it. A label that would run past the end of `f` ends the name.
pub open spec fn name_from(f: Seq<u8>, i: int) -> Seq<char>
    decreases f.len() - i,
{
    if i < 0 || i >= f.len() || f[i] == 0 {
        Seq::empty()
    } else if i + 1 + f[i] as int > f.len() {
        Seq::empty()
    } else {
        let next = i + 1 + f[i] as int;
        let sep = if next < f.len() && f[next] != 0 {
            seq!['.']
        } else {
            Seq::empty()
        };
        bytes_chars(f.subrange(i + 1, next)) + sep + name_from(f, next)
    }
}

/// Relies on `String::push`: the character is appended at the end.
pub assume_specification[ String::push ](s: &mut String, ch: char)
    ensures
        final(s)@ == old(s)@.push(ch),
;

/// The labels joined with '.' between each two of them.
pub open spec fn join_labels(labels: Seq<Seq<char>>) -> Seq<char>
    decreases labels.len(),
{
    if labels.len() == 0 {
        Seq::empty()
    } else if labels.len() == 1 {
        labels[0]
    } else {
        join_labels(labels.drop_last()) + seq!['.'] + labels.last()
    }
}

/// A name that decodes back to itself: every label has 1 to 255 characters,
/// and every character is one byte wide (a code point below 256).
pub open spec fn round_trip_labels(labels: Seq<Seq<char>>) -> bool {
    &&& forall|k: int| 0 <= k < labels.len() ==> 1 <= #[trigger] labels[k].len() <= 255
    &&& forall|k: int, j: int|
        0 <= k < labels.len() && 0 <= j < labels[k].len() ==> (#[trigger] labels[k][j] as u32) < 256
}

proof fn lemma_one_byte_char(c: char)
    requires
        (c as u32) < 256,
    ensures
        (c as u8) as char == c,
{
}

proof fn lemma_join_split(name: Seq<char>)
    ensures
        join_labels(split_labels(name)) == name,
    decreases name.len(),
{
    if name.len() > 0 {
        let rest = split_labels(name.drop_last());
        lemma_join_split(name.drop_last());
        lemma_split_labels_nonempty(name.drop_last());
        if name.last() == '.' {
            assert(rest.push(Seq::empty()).drop_last() =~= rest);
            assert(name =~= join_labels(rest) + seq!['.'] + Seq::<char>::empty());
        } else {
            let ls = rest.update(rest.len() - 1, rest.last().push(name.last()));
            if rest.len() == 1 {
                assert(name =~= rest[0].push(name.last()));
            } else {
                assert(ls.drop_last() =~= rest.drop_last());
                assert(join_labels(rest) == join_labels(rest.drop_last()) + seq!['.'] + rest.last());
                assert(name =~= name.drop_last().push(name.last()));
                assert(join_labels(ls) == join_labels(ls.drop_last()) + seq!['.'] + ls.last());
                assert(join_labels(ls) =~= join_labels(rest).push(name.last()));
            }
        }
    }
}

proof fn lemma_join_first(labels: Seq<Seq<char>>)
    requires
        labels.len() >= 2,
    ensures
        join_labels(labels) == labels[0] + seq!['.'] + join_labels(labels.drop_first()),
    decreases labels.len(),
{
    if labels.len() > 2 {
        let d = labels.drop_last();
        lemma_join_first(d);
        assert(d.drop_first() =~= labels.drop_first().drop_last());
        assert(labels.drop_first().last() == labels.last());
        assert(join_labels(labels) == join_labels(d) + seq!['.'] + labels.last());
        assert(join_labels(labels.drop_first()) == join_labels(labels.drop_first().drop_last()) + seq!['.']
            + labels.drop_first().last());
        assert(join_labels(labels) =~= labels[0] + seq!['.'] + join_labels(labels.drop_first()));
    } else {
        assert(labels.drop_first() =~= seq![labels[1]]);
        assert(labels.drop_last() =~= seq![labels[0]]);
        assert(join_labels(labels.drop_last()) == labels[0]);
        assert(join_labels(labels.drop_first()) == labels[1]);
    }
}

proof fn lemma_labels_bytes_first(labels: Seq<Seq<char>>)
    requires
        labels.len() >= 1,
    ensures
        labels_bytes(labels) == seq![labels[0].len() as u8] + label_chars_bytes(labels[0]) + labels_bytes(
            labels.drop_first(),
        ),
    decreases labels.len(),
{
    if labels.len() > 1 {
        lemma_labels_bytes_first(labels.drop_last());
        assert(labels.drop_last().drop_first() =~= labels.drop_first().drop_last());
    } else {
        assert(labels.drop_last() =~= Seq::<Seq<char>>::empty());
        assert(labels.drop_first() =~= Seq::<Seq<char>>::empty());
    }
}

proof fn lemma_name_from_labels(pre: Seq<u8>, labels: Seq<Seq<char>>, tail: Seq<u8>)
    requires
        round_trip_labels(labels),
        tail.len() >= 1,
        tail[0] == 0,
    ensures
        name_from(pre + labels_bytes(labels) + tail, pre.len() as int) == join_labels(labels),
    decreases labels.len(),
{
    let f = pre + labels_bytes(labels) + tail;
    let i = pre.len() as int;
    if labels.len() == 0 {
        assert(f[i] == 0);
    } else {
        let l = labels[0];
        let rest = labels.drop_first();
        lemma_labels_bytes_first(labels);
        let pre2 = pre + seq![l.len() as u8] + label_chars_bytes(l);
        assert(f =~= pre2 + labels_bytes(rest) + tail);
        assert(round_trip_labels(rest)) by {
            assert forall|k: int| 0 <= k < rest.len() implies 1 <= #[trigger] rest[k].len() <= 255 by {
                assert(rest[k] == labels[k + 1]);
            }
            assert forall|k: int, j: int| 0 <= k < rest.len() && 0 <= j < rest[k].len() implies (
            #[trigger] rest[k][j] as u32) < 256 by {
                assert(rest[k] == labels[k + 1]);
            }
        }
        lemma_name_from_labels(pre2, rest, tail);
        assert(1 <= l.len() <= 255);
        assert(f[i] == l.len() as u8);
        let next = i + 1 + l.len();
        assert(f.subrange(i + 1, next) =~= label_chars_bytes(l));
        assert(bytes_chars(label_chars_bytes(l)) =~= l) by {
            assert forall|j: int| 0 <= j < l.len() implies (l[j] as u8) as char == l[j] by {
                assert((labels[0][j] as u32) < 256);
                lemma_one_byte_char(l[j]);
            }
        }
        if rest.len() == 0 {
            assert(f[next] == tail[0]);
            assert(join_labels(labels) == l);
            assert(name_from(f, i) =~= l + Seq::<char>::empty() + join_labels(rest));
        } else {
            lemma_labels_bytes_first(rest);
            assert(f[next] == rest[0].len() as u8);
            assert(1 <= rest[0].len() <= 255);
            lemma_join_first(labels);
        }
    }
}

/// A name whose labels each have 1 to 255 one-byte characters decodes back
/// to itself: `get_qname` of `new(name, ..)` gives `name`, with a '.' only
/// between two labels.
pub proof fn qname_round_trip(name: Seq<char>, qtype: u16, qclass: u16)
    requires
        round_trip_labels(split_labels(name)),
    ensures
        name_from(encode_question(name, qtype, qclass), 0) == name,
{
    let tail = seq![0u8] + be_bytes(qtype) + be_bytes(qclass);
    let pre = Seq::<u8>::empty();
    assert(encode_question(name, qtype, qclass) =~= pre + labels_bytes(split_labels(name)) + tail);
    lemma_name_from_labels(pre, split_labels(name), tail);
    lemma_join_split(name);
}

/// A question record as its wire bytes.
pub struct Question {
    frame: Vec<u8>,
}

impl Question {
    /// Every question ends with a terminator, the query type and the query
    /// class.
    #[verifier::type_invariant]
    spec fn inv(&self) -> bool {
        self.frame@.len() >= 5
    }

    /// The wire bytes of this question.
    pub closed spec fn view(&self) -> Seq<u8> {
        self.frame@
    }

    /// Builds the question for `qname`, split into labels at each '.', with
    /// query type `qtype` and query class `qclass`. Each label is written as
    /// its length in one byte (no bound is enforced) and then one
    /// byte per character; names are expected to be ASCII.
    pub fn new(qname: &str, qtype: u16, qclass: u16) -> (r: Question)
        ensures
            r.view() == encode_question(qname@, qtype, qclass),
    {
        let ghost name = qname@;
        let n = qname.unicode_len();
        let mut vec: Vec<u8> = Vec::new();
        vec.push(0);
        let mut start: usize = 0;
        let mut count: usize = 0;
        let mut i: usize = 0;
        proof {
            assert(name.take(0) =~= Seq::<char>::empty());
            assert(vec@ =~= labels_bytes(Seq::empty()) + seq![0u8] + label_chars_bytes(Seq::empty()));
        }
        while i < n
            invariant
                n == name.len(),
                name == qname@,
                i <= n,
                count <= i,
                split_labels(name.take(i as int)).len() >= 1,
                count == split_labels(name.take(i as int)).last().len(),
                start == labels_bytes(split_labels(name.take(i as int)).drop_last()).len(),
                vec@ == labels_bytes(split_labels(name.take(i as int)).drop_last()) + seq![0u8]
                    + label_chars_bytes(split_labels(name.take(i as int)).last()),
            decreases n - i,
        {
            let c = qname.get_char(i);
            let ghost labels = split_labels(name.take(i as int));
            proof {
                assert(name.take(i + 1).drop_last() =~= name.take(i as int));
                assert(name.take(i + 1).last() == c);
                lemma_split_labels_nonempty(name.take(i + 1));
            }
            if c == '.' {
                vec.set(start, #[verifier::truncate] (count as u8));
                proof {
                    assert(labels.drop_last().push(labels.last()) =~= labels);
                    assert(vec@ =~= labels_bytes(labels));
                }
                start = vec.len();
                vec.push(0);
                count = 0;
                proof {
                    let nl = split_labels(name.take(i + 1));
                    assert(nl.drop_last() =~= labels);
                    assert(vec@ =~= labels_bytes(nl.drop_last()) + seq![0u8] + label_chars_bytes(nl.last()));
                }
            } else {
                vec.push(#[verifier::truncate] (c as u8));
                count = count + 1;
                proof {
                    let nl = split_labels(name.take(i + 1));
                    assert(nl.drop_last() =~= labels.drop_last());
                    assert(label_chars_bytes(nl.last()) =~= label_chars_bytes(labels.last()).push(c as u8));
                    assert(vec@ =~= labels_bytes(nl.drop_last()) + seq![0u8] + label_chars_bytes(nl.last()));
                }
            }
            i = i + 1;
        }
        proof {
            assert(name.take(n as int) =~= name);
        }
        let ghost labels = split_labels(name);
        vec.set(start, #[verifier::truncate] (count as u8));
        proof {
            assert(labels.drop_last().push(labels.last()) =~= labels);
            assert(vec@ =~= labels_bytes(labels));
        }
        vec.push(0);
        vec.push((qtype / 256) as u8);
        vec.push((qtype % 256) as u8);
        vec.push((qclass / 256) as u8);
        vec.push((qclass % 256) as u8);
        proof {
            assert(vec@ =~= encode_question(name, qtype, qclass));
            assert(vec@.len() >= 5);
        }
        Question { frame: vec }
    }

    /// Reads the question at the start of `bytes`: labels up to a zero-length
    /// terminator, then 4 bytes of query type and class. The question holds
    /// exactly the bytes read; what follows them is left alone.
    pub fn read(bytes: &[u8]) -> (r: Result<Question, DecodeError>)
        ensures
            match question_len(bytes@) {
                Some(n) => r is Ok && r->Ok_0.view() == bytes@.take(n),
                None => r == Err::<Question, DecodeError>(DecodeError::TruncatedInput),
            },
    {
        let len = bytes.len();
        let mut frame: Vec<u8> = Vec::new();
        let mut i: usize = 0;
        loop
            invariant_except_break
                name_end(bytes@, 0) == name_end(bytes@, i as int),
            invariant
                len == bytes@.len(),
                i <= len,
                frame@ == bytes@.take(i as int),
            ensures
                1 <= i <= len,
                frame@ == bytes@.take(i as int),
                name_end(bytes@, 0) == Some(i as int),
            decreases len - i,
        {
            if i >= len {
                return Err(DecodeError::TruncatedInput);
            }
            let label_size = bytes[i];
            frame.push(label_size);
            i = i + 1;
            assert(frame@ =~= bytes@.take(i as int));
            if label_size == 0 {
                break;
            }
            if len - i < label_size as usize {
                return Err(DecodeError::TruncatedInput);
            }
            let mut j: usize = 0;
            while j < label_size as usize
                invariant
                    len == bytes@.len(),
                    i + label_size as usize <= len,
                    j <= label_size,
                    frame@ == bytes@.take(i + j),
                decreases label_size - j,
            {
                frame.push(bytes[i + j]);
                j = j + 1;
                assert(frame@ =~= bytes@.take(i + j));
            }
            i = i + label_size as usize;
        }
        if len - i < QTYPE_SIZE + QCLASS_SIZE {
            return Err(DecodeError::TruncatedInput);
        }
        let mut j: usize = 0;
        while j < QTYPE_SIZE + QCLASS_SIZE
            invariant
                len == bytes@.len(),
                i + 4 <= len,
                j <= 4,
                frame@ == bytes@.take(i + j),
            decreases 4 - j,
        {
            frame.push(bytes[i + j]);
            j = j + 1;
            assert(frame@ =~= bytes@.take(i + j));
        }
        Ok(Question { frame })
    }

    /// The domain name of this question, labels joined by '.', with each
    /// label byte read as the character with that code.
    pub fn get_qname(&self) -> (r: String)
        ensures
            r@ == name_from(self.view(), 0),
    {
        let ghost f = self.frame@;
        let len = self.frame.len();
        let mut result = String::new();
        let mut i: usize = 0;
        while i < len && self.frame[i] != 0
            invariant
                f == self.frame@,
                len == f.len(),
                i <= len,
                result@ + name_from(f, i as int) == name_from(f, 0),
            decreases len - i,
        {
            let label_size = self.frame[i] as usize;
            if label_size > len - i - 1 {
                assert(result@ + name_from(f, i as int) =~= result@);
                i = len;
                assert(result@ + name_from(f, i as int) =~= result@);
            } else {
                let ghost i0 = i as int;
                let ghost pre = result@;
                i = i + 1;
                let end = i + label_size;
                while i < end
                    invariant
                        f == self.frame@,
                        len == f.len(),
                        0 <= i0,
                        i0 + 1 <= i <= end,
                        end <= len,
                        result@ == pre + bytes_chars(f.subrange(i0 + 1, i as int)),
                    decreases end - i,
                {
                    result.push(self.frame[i] as char);
                    i = i + 1;
                    assert(f.subrange(i0 + 1, i as int) =~= f.subrange(i0 + 1, i - 1).push(f[i - 1]));
                    assert(bytes_chars(f.subrange(i0 + 1, i as int)) =~= bytes_chars(
                        f.subrange(i0 + 1, i - 1),
                    ).push(f[i - 1] as char));
                }
                let ghost label = bytes_chars(f.subrange(i0 + 1, i as int));
                if i < len && self.frame[i] != 0 {
                    result.push('.');
                    assert(result@ + name_from(f, i as int) =~= pre + (label + seq!['.'] + name_from(f, i as int)));
                } else {
                    assert(result@ + name_from(f, i as int) =~= pre + (label + Seq::empty() + name_from(f, i as int)));
                }
            }
        }
        result
    }

    /// The query type: the first two of the four bytes that end the question.
    pub fn get_qtype(&self) -> (r: u16)
        ensures
            r == u16_at(self.view(), self.view().len() - 4),
    {
        proof {
            use_type_invariant(self);
        }
        let p = self.frame.len() - 4;
        (self.frame[p] as u16) * 256 + self.frame[p + 1] as u16
    }

    /// The query class: the last two bytes of the question.
    pub fn get_qclass(&self) -> (r: u16)
        ensures
            r == u16_at(self.view(), self.view().len() - 2),
    {
        proof {
            use_type_invariant(self);
        }
        let p = self.frame.len() - 2;
        (self.frame[p] as u16) * 256 + self.frame[p + 1] as u16
    }

    /// The wire bytes of this question, to be written out as they are.
    pub fn frame(&self) -> (r: &Vec<u8>)
        ensures
            r@ == self.view(),
    {
        &self.frame
    }
}

} // verus!
