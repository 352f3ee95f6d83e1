//! The chunking sequencer: turns an owned sequence of elements into a
//! lazy, single-pass series of fixed-size batches, and the declared
//! content-length metadata carried on the upload path.

use vstd::prelude::*;

verus! {

/// How many elements the next batch takes from a remainder of length
/// `len` when the configured chunk size is `size`: a full batch, or
/// everything that is left.
pub open spec fn chunk_split_point(len: int, size: int) -> int {
    if len <= size {
        len
    } else {
        size
    }
}

/// The batches that chunking a sequence with chunk size `size` yields:
/// every batch except possibly the last has exactly `size` elements,
/// the last has between 1 and `size`, and an empty sequence yields no
/// batches at all.
pub open spec fn chunks_of<A>(s: Seq<A>, size: int) -> Seq<Seq<A>>
    recommends
        1 <= size,
    decreases s.len(),
{
    if size < 1 || s.len() == 0 {
        Seq::empty()
    } else if s.len() <= size {
        seq![s]
    } else {
        seq![s.take(size)] + chunks_of(s.skip(size), size)
    }
}

/// Chunking a non-empty sequence peels off one batch of
/// `chunk_split_point` elements and chunks the rest.
pub proof fn lemma_chunks_of_step<A>(s: Seq<A>, size: int)
    requires
        1 <= size,
        s.len() > 0,
    ensures
        chunks_of(s, size) == seq![s.take(chunk_split_point(s.len() as int, size))] + chunks_of(
            s.skip(chunk_split_point(s.len() as int, size)),
            size,
        ),
{
    let n = chunk_split_point(s.len() as int, size);
    if s.len() <= size {
        assert(s.take(n) =~= s);
        assert(s.skip(n) =~= Seq::<A>::empty());
        assert(seq![s.take(n)] + chunks_of(s.skip(n), size) =~= seq![s]);
    }
}

/// Chunking a sequence of length `L` with chunk size `C` yields exactly
/// `(L + C - 1) / C` batches, the ceiling of `L / C`: in particular, an
/// empty sequence yields no batches at all.
pub proof fn lemma_chunks_of_count<A>(s: Seq<A>, size: int)
    requires
        1 <= size,
    ensures
        chunks_of(s, size).len() == (s.len() + size - 1) / size,
    decreases s.len(),
{
    if s.len() == 0 {
        vstd::arithmetic::div_mod::lemma_basic_div(size - 1, size);
    } else if s.len() <= size {
        vstd::arithmetic::div_mod::lemma_div_plus_one(s.len() - 1, size);
        vstd::arithmetic::div_mod::lemma_basic_div(s.len() - 1, size);
    } else {
        lemma_chunks_of_count(s.skip(size), size);
        vstd::arithmetic::div_mod::lemma_div_plus_one(s.len() - 1, size);
    }
}

/// Every batch except the last has exactly `size` elements, and the
/// last batch of a non-empty sequence of length `L` has `L % size`
/// elements, or `size` when `size` divides `L`. So no batch is empty
/// and none exceeds the chunk size.
pub proof fn lemma_chunks_of_sizes<A>(s: Seq<A>, size: int)
    requires
        1 <= size,
    ensures
        forall|i: int|
            0 <= i < chunks_of(s, size).len() - 1 ==> (#[trigger] chunks_of(s, size)[i]).len()
                == size,
        s.len() > 0 ==> chunks_of(s, size).last().len() == (if s.len() as int % size == 0 {
            size
        } else {
            s.len() as int % size
        }),
    decreases s.len(),
{
    if s.len() == 0 {
    } else if s.len() < size {
        vstd::arithmetic::div_mod::lemma_small_mod(s.len(), size as nat);
    } else if s.len() == size {
        vstd::arithmetic::div_mod::lemma_mod_self_0(size);
    } else {
        lemma_chunks_of_sizes(s.skip(size), size);
        vstd::arithmetic::div_mod::lemma_mod_sub_multiples_vanish(s.len() as int, size);
        assert(s.skip(size).len() as int % size == s.len() as int % size);
        assert(chunks_of(s.skip(size), size).len() > 0);
        assert(chunks_of(s, size).last() == chunks_of(s.skip(size), size).last());
        assert forall|i: int| 0 <= i < chunks_of(s, size).len() - 1 implies (#[trigger] chunks_of(
            s,
            size,
        )[i]).len() == size by {
            if i == 0 {
                assert(chunks_of(s, size)[0] == s.take(size));
            } else {
                assert(chunks_of(s, size)[i] == chunks_of(s.skip(size), size)[i - 1]);
            }
        }
    }
}

/// Concatenating all the batches that chunking produced, in order,
/// reproduces the original sequence exactly.
pub proof fn lemma_chunks_of_round_trip<A>(s: Seq<A>, size: int)
    requires
        1 <= size,
    ensures
        chunks_of(s, size).flatten() == s,
    decreases s.len(),
{
    if s.len() == 0 {
        assert(chunks_of(s, size).flatten() =~= s);
    } else if s.len() <= size {
        chunks_of(s, size).lemma_flatten_one_element();
    } else {
        lemma_chunks_of_round_trip(s.skip(size), size);
        vstd::seq_lib::lemma_flatten_concat(seq![s.take(size)], chunks_of(s.skip(size), size));
        seq![s.take(size)].lemma_flatten_one_element();
        assert(chunks_of(s, size).flatten() =~= s.take(size) + s.skip(size));
        assert(s.take(size) + s.skip(size) =~= s);
    }
}

/// A single-pass producer of fixed-size batches over an owned sequence
/// of elements; the gateway drives it to feed the storage backend one
/// chunk at a time.
pub struct Chunk<A> {
    data: Vec<A>,
    pos: usize,
    size: usize,
}

impl<A> Chunk<A> {
    /// The producer is consistent: it never points past its data and
    /// its chunk size is positive.
    pub closed spec fn wf(self) -> bool {
        self.pos <= self.data@.len() && self.size >= 1
    }

    /// The elements not yet handed out.
    pub closed spec fn remaining(self) -> Seq<A> {
        self.data@.skip(self.pos as int)
    }

    /// The configured number of elements per batch.
    pub closed spec fn chunk_size(self) -> int {
        self.size as int
    }
}

impl<A: Copy> Chunk<A> {
    /// Produces the next batch: the first `chunk_size` remaining
    /// elements, or all of them when fewer are left, or nothing once
    /// the source is exhausted. Zero-length batches are never produced.
    pub fn next(&mut self) -> (r: Option<Vec<A>>)
        requires
            old(self).wf(),
        ensures
            final(self).wf(),
            final(self).chunk_size() == old(self).chunk_size(),
            (r is None) <==> old(self).remaining().len() == 0,
            r is None ==> final(self).remaining() == old(self).remaining(),
            r matches Some(c) ==> ({
                let n = chunk_split_point(
                    old(self).remaining().len() as int,
                    old(self).chunk_size(),
                );
                &&& c@ == old(self).remaining().take(n)
                &&& c@.len() == n
                &&& final(self).remaining() == old(self).remaining().skip(n)
                &&& c@ == chunks_of(old(self).remaining(), old(self).chunk_size())[0]
                &&& chunks_of(final(self).remaining(), final(self).chunk_size()) == chunks_of(
                    old(self).remaining(),
                    old(self).chunk_size(),
                ).drop_first()
            }),
    {
        if self.pos == self.data.len() {
            return None;
        }
        let end: usize = if self.data.len() - self.pos > self.size {
            self.pos + self.size
        } else {
            self.data.len()
        };
        let ghost n = chunk_split_point(old(self).remaining().len() as int, self.size as int);
        assert(end == self.pos + n);
        let mut c: Vec<A> = Vec::new();
        let mut i: usize = self.pos;
        while i < end
            invariant
                self == old(self),
                old(self).wf(),
                old(self).pos <= i <= end <= old(self).data@.len(),
                c@ == old(self).data@.subrange(old(self).pos as int, i as int),
            decreases end - i,
        {
            let v = self.data[i];
            c.push(v);
            i += 1;
        }
        self.pos = end;
        proof {
            assert(c@ =~= old(self).remaining().take(n));
            assert(final(self).remaining() =~= old(self).remaining().skip(n));
            lemma_chunks_of_step(old(self).remaining(), old(self).chunk_size());
            assert(chunks_of(old(self).remaining(), old(self).chunk_size())[0] == old(
                self,
            ).remaining().take(n));
            assert(chunks_of(old(self).remaining(), old(self).chunk_size()).drop_first()
                =~= chunks_of(final(self).remaining(), final(self).chunk_size()));
        }
        Some(c)
    }
}

/// Something that can be turned into a chunking sequencer over its
/// elements.
pub trait Chunkable: Sized {
    type Item;

    /// The elements that the sequencer will hand out, in order.
    spec fn elements(self) -> Seq<Self::Item>;

    /// Wraps `self` in a chunking sequencer that produces batches of
    /// `size` elements.
    fn chunks(self, size: usize) -> (c: Chunk<Self::Item>)
        requires
            size >= 1,
        ensures
            c.wf(),
            c.remaining() == self.elements(),
            c.chunk_size() == size as int,
    ;
}

impl<A> Chunkable for Vec<A> {
    type Item = A;

    open spec fn elements(self) -> Seq<A> {
        self@
    }

    fn chunks(self, size: usize) -> (c: Chunk<A>) {
        let c = Chunk { data: self, pos: 0, size };
        proof {
            assert(c.remaining() =~= c.data@);
        }
        c
    }
}

/// True when `c` is a decimal digit.
pub open spec fn is_dec_digit(c: char) -> bool {
    48 <= c as int && c as int <= 57
}

/// The numeric value of the decimal digit `c`.
pub open spec fn digit_value(c: char) -> int {
    c as int - 48
}

/// True when every character of `s` is a decimal digit.
pub open spec fn all_dec_digits(s: Seq<char>) -> bool {
    forall|i: int| 0 <= i < s.len() ==> is_dec_digit(#[trigger] s[i])
}

/// The non-negative integer that a string of decimal digits denotes.
pub open spec fn dec_value(s: Seq<char>) -> int
    decreases s.len(),
{
    if s.len() == 0 {
        0
    } else {
        dec_value(s.drop_last()) * 10 + digit_value(s.last())
    }
}

/// True when a declared length opens with a sign character.
pub open spec fn has_sign(s: Seq<char>) -> bool {
    s.len() > 0 && (s[0] == '+' || s[0] == '-')
}

/// The digit characters of a declared length, after the optional
/// leading sign.
pub open spec fn digits_part(s: Seq<char>) -> Seq<char> {
    if has_sign(s) {
        s.skip(1)
    } else {
        s
    }
}

/// True when `s` presents a well-formed declared length: a non-empty
/// run of decimal digits, after an optional leading sign, whose value
/// is non-negative and fits the length type. A minus sign is therefore
/// admitted only when the digits denote zero; other negative,
/// non-numeric, and empty presentations are not valid.
pub open spec fn valid_content_length(s: Seq<char>) -> bool {
    &&& digits_part(s).len() > 0
    &&& all_dec_digits(digits_part(s))
    &&& dec_value(digits_part(s)) <= i64::MAX
    &&& (s[0] == '-' ==> dec_value(digits_part(s)) == 0)
}

/// The value that a well-formed declared length denotes.
pub open spec fn content_length_value(s: Seq<char>) -> int {
    dec_value(digits_part(s))
}

/// A string of digits denotes a non-negative value.
proof fn lemma_dec_value_non_negative(s: Seq<char>)
    requires
        all_dec_digits(s),
    ensures
        dec_value(s) >= 0,
    decreases s.len(),
{
    if s.len() > 0 {
        assert(all_dec_digits(s.drop_last()));
        lemma_dec_value_non_negative(s.drop_last());
    }
}

/// Dropping trailing digits never increases the denoted value.
proof fn lemma_dec_value_prefix_le(s: Seq<char>, k: int)
    requires
        all_dec_digits(s),
        0 <= k <= s.len(),
    ensures
        dec_value(s.take(k)) <= dec_value(s),
    decreases s.len(),
{
    if k == s.len() {
        assert(s.take(k) =~= s);
    } else {
        assert(s.take(k) =~= s.drop_last().take(k));
        assert(all_dec_digits(s.drop_last()));
        lemma_dec_value_prefix_le(s.drop_last(), k);
        lemma_dec_value_non_negative(s.drop_last());
    }
}

/// Parses a declared length: returns the denoted value on exactly the
/// well-formed presentations, and nothing otherwise.
fn parse_content_length(s: &str) -> (r: Option<i64>)
    ensures
        (r is Some) <==> valid_content_length(s@),
        r matches Some(v) ==> v as int == content_length_value(s@),
{
    let n = s.unicode_len();
    let mut start: usize = 0;
    let mut negative = false;
    if n > 0 {
        let first = s.get_char(0);
        if first == '+' || first == '-' {
            start = 1;
            negative = first == '-';
        }
    }
    let ghost d: Seq<char> = digits_part(s@);
    proof {
        assert(d =~= s@.skip(start as int));
    }
    if start == n {
        return None;
    }
    let mut value: i64 = 0;
    let mut i: usize = start;
    while i < n
        invariant
            start <= i <= n,
            n == s@.len(),
            start < n,
            d == s@.skip(start as int),
            d == digits_part(s@),
            d.len() == n - start,
            negative == (s@[0] == '-'),
            forall|j: int| 0 <= j < i - start ==> is_dec_digit(#[trigger] d[j]),
            0 <= value,
            value as int == dec_value(d.take(i - start)),
        decreases n - i,
    {
        let c = s.get_char(i);
        let u = c as u32;
        let ghost k: int = i - start;
        proof {
            assert(d[k] == s@[i as int]);
        }
        if u < 48 || u > 57 {
            proof {
                assert(!is_dec_digit(d[k]));
            }
            return None;
        }
        let dv = (u - 48) as i64;
        proof {
            assert(is_dec_digit(d[k]));
            assert(digit_value(d[k]) == dv as int);
            assert(d.take(k + 1).drop_last() =~= d.take(k));
            assert(d.take(k + 1).last() == d[k]);
            assert(dec_value(d.take(k + 1)) == value * 10 + dv);
        }
        if value > (i64::MAX - dv) / 10 {
            proof {
                let b: int = i64::MAX - dv;
                vstd::arithmetic::div_mod::lemma_fundamental_div_mod(b, 10);
                vstd::arithmetic::div_mod::lemma_mod_pos_bound(b, 10);
                assert(value * 10 + dv > i64::MAX);
                if all_dec_digits(d) {
                    lemma_dec_value_prefix_le(d, k + 1);
                    assert(dec_value(d) > i64::MAX);
                }
                assert(!valid_content_length(s@));
            }
            return None;
        }
        proof {
            let b: int = i64::MAX - dv;
            vstd::arithmetic::div_mod::lemma_fundamental_div_mod(b, 10);
            vstd::arithmetic::div_mod::lemma_mod_pos_bound(b, 10);
            assert(value * 10 + dv <= i64::MAX);
        }
        value = value * 10 + dv;
        i += 1;
    }
    if negative && value != 0 {
        proof {
            assert(d.take(n - start) =~= d);
        }
        return None;
    }
    proof {
        assert(d.take(n - start) =~= d);
        assert(valid_content_length(s@));
    }
    Some(value)
}

/// Represents a declared Content-Length value carried with a request
/// or a response.
#[derive(Clone, Copy, PartialEq, Eq, Structural, Debug)]
pub struct ContentLength(pub i64);

/// The ways the declared Content-Length of an upload can be malformed.
#[derive(Clone, Copy, PartialEq, Eq, Structural, Debug)]
pub enum ContentLengthError {
    /// More than one value was supplied.
    BadCount,
    /// No value was supplied.
    Missing,
    /// The single supplied value does not denote a non-negative
    /// integer that fits the length type.
    Invalid,
}

impl ContentLength {
    /// Reads the declared length from the Content-Length header values
    /// of an inbound request: zero values are missing, a single
    /// well-formed value succeeds, a single malformed value is
    /// invalid, and several values are a bad count.
    pub fn from_header_values(values: &Vec<String>) -> (r: Result<ContentLength, ContentLengthError>)
        ensures
            values@.len() == 0 ==> r == Err::<ContentLength, ContentLengthError>(
                ContentLengthError::Missing,
            ),
            values@.len() > 1 ==> r == Err::<ContentLength, ContentLengthError>(
                ContentLengthError::BadCount,
            ),
            values@.len() == 1 && valid_content_length(values@[0]@) ==> (r matches Ok(cl)
                && cl.0 as int == content_length_value(values@[0]@)),
            values@.len() == 1 && !valid_content_length(values@[0]@) ==> r == Err::<
                ContentLength,
                ContentLengthError,
            >(ContentLengthError::Invalid),
    {
        if values.len() == 0 {
            Err(ContentLengthError::Missing)
        } else if values.len() > 1 {
            Err(ContentLengthError::BadCount)
        } else {
            match parse_content_length(values[0].as_str()) {
                Some(v) => Ok(ContentLength(v)),
                None => Err(ContentLengthError::Invalid),
            }
        }
    }
}

} // verus!
