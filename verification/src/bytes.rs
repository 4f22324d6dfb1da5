//! The scanner: an owned byte buffer ([`MdChars`]) and a cursor over it
//! ([`MdCharsIter`]) with lookahead, matching and slice-until-delimiter
//! primitives. No parsing logic lives here.

use vstd::prelude::*;
use vstd::string::StringSliceAdditionalSpecFns;

verus! {

/// How many bytes of `s` remain from position `i`; clamped so it can serve
/// as a termination measure.
pub open spec fn remaining(s: Seq<u8>, i: int) -> int {
    if 0 <= i <= s.len() {
        s.len() - i
    } else {
        0
    }
}

/// Does `pat` occur in `s` starting exactly at index `i`?
pub open spec fn match_at(s: Seq<u8>, i: int, pat: Seq<u8>) -> bool {
    &&& 0 <= i
    &&& i + pat.len() <= s.len()
    &&& s.subrange(i, i + pat.len()) == pat
}

/// Index at which a scan for the single terminator `end`, started at `i`,
/// succeeds; `-1` when the scan gives up after checking every remaining
/// byte. The cursor reads a sentinel `0` at the very end of the buffer, so
/// a scan that starts at the end matches a zero terminator there.
pub open spec fn scan_to_byte(s: Seq<u8>, i: int, end: u8) -> int
    recommends
        0 <= i <= s.len(),
    decreases s.len() - i + 1,
{
    if i < 0 || i > s.len() {
        -1
    } else if (i == s.len() && end == 0) || (i < s.len() && s[i] == end) {
        i
    } else if i + 1 < s.len() {
        scan_to_byte(s, i + 1, end)
    } else {
        -1
    }
}

/// Index at which a scan for the terminator sequence `pat`, started at `i`,
/// succeeds; `-1` when the scan gives up. The scan advances only while a
/// whole `pat` could still fit after the next position.
pub open spec fn scan_to_seq(s: Seq<u8>, i: int, pat: Seq<u8>) -> int
    recommends
        0 <= i <= s.len(),
    decreases s.len() - i + 1,
{
    if i < 0 || i > s.len() {
        -1
    } else if match_at(s, i, pat) {
        i
    } else if i + pat.len() < s.len() {
        scan_to_seq(s, i + 1, pat)
    } else {
        -1
    }
}

/// Like [`scan_to_seq`], but at each position the long terminator `pat` is
/// tried first and the short one `short` second; advancing is still governed
/// by `pat`'s length alone.
pub open spec fn scan_to_seq2(s: Seq<u8>, i: int, pat: Seq<u8>, short: Seq<u8>) -> int
    recommends
        0 <= i <= s.len(),
    decreases s.len() - i + 1,
{
    if i < 0 || i > s.len() {
        -1
    } else if match_at(s, i, pat) || match_at(s, i, short) {
        i
    } else if i + pat.len() < s.len() {
        scan_to_seq2(s, i + 1, pat, short)
    } else {
        -1
    }
}

/// A scan for a single terminator either gives up or lands on a match at
/// or after its start.
pub proof fn lemma_scan_to_byte_result(s: Seq<u8>, i: int, end: u8)
    requires
        0 <= i <= s.len(),
    ensures
        ({
            let p = scan_to_byte(s, i, end);
            ||| p == -1
            ||| (i <= p <= s.len() && ((p == s.len() && end == 0) || (p < s.len() && s[p]
                == end)))
        }),
    decreases s.len() - i,
{
    if !((i == s.len() && end == 0) || (i < s.len() && s[i] == end)) && i + 1 < s.len() {
        lemma_scan_to_byte_result(s, i + 1, end);
    }
}

/// A scan for a terminator sequence either gives up or lands on a match at
/// or after its start.
pub proof fn lemma_scan_to_seq_result(s: Seq<u8>, i: int, pat: Seq<u8>)
    requires
        0 <= i <= s.len(),
    ensures
        ({
            let p = scan_to_seq(s, i, pat);
            p == -1 || (i <= p && match_at(s, p, pat))
        }),
    decreases s.len() - i,
{
    if !match_at(s, i, pat) && i + pat.len() < s.len() {
        lemma_scan_to_seq_result(s, i + 1, pat);
    }
}

/// A scan for a single terminator lands exactly on the terminator's first
/// occurrence.
pub proof fn lemma_scan_to_byte_first(s: Seq<u8>, i: int, p: int, end: u8)
    requires
        0 <= i <= p < s.len(),
        s[p] == end,
        forall|d: int| i <= d < p ==> #[trigger] s[d] != end,
    ensures
        scan_to_byte(s, i, end) == p,
    decreases p - i,
{
    if i < p {
        lemma_scan_to_byte_first(s, i + 1, p, end);
    }
}

/// A scan for a terminator sequence lands exactly on its first match.
pub proof fn lemma_scan_to_seq_first(s: Seq<u8>, i: int, p: int, pat: Seq<u8>)
    requires
        0 <= i <= p,
        match_at(s, p, pat),
        forall|d: int| i <= d < p ==> !(#[trigger] match_at(s, d, pat)),
    ensures
        scan_to_seq(s, i, pat) == p,
    decreases p - i,
{
    if i < p {
        assert(i + pat.len() < s.len());
        lemma_scan_to_seq_first(s, i + 1, p, pat);
    }
}

/// Are the two byte strings equal?
pub fn bytes_eq(a: &Vec<u8>, b: &[u8]) -> (r: bool)
    ensures
        r == (a@ == b@),
{
    if a.len() != b.len() {
        return false;
    }
    let n = a.len();
    let mut i: usize = 0;
    while i < n
        invariant
            n == a@.len(),
            n == b@.len(),
            0 <= i <= n,
            forall|k: int| 0 <= k < i ==> a@[k] == b@[k],
        decreases n - i,
    {
        if a[i] != b[i] {
            return false;
        }
        i = i + 1;
    }
    proof {
        assert(a@ =~= b@);
    }
    true
}

/// Appends a byte slice to a vector.
pub fn append_bytes(out: &mut Vec<u8>, b: &[u8])
    ensures
        final(out)@ == old(out)@ + b@,
{
    let n = b.len();
    let mut i: usize = 0;
    while i < n
        invariant
            n == b@.len(),
            0 <= i <= n,
            out@ == old(out)@ + b@.take(i as int),
        decreases n - i,
    {
        out.push(b[i]);
        proof {
            assert(out@ =~= old(out)@ + b@.take(i + 1));
        }
        i = i + 1;
    }
    proof {
        assert(old(out)@ + b@.take(n as int) =~= old(out)@ + b@);
    }
}

/// Copies a byte vector.
pub fn clone_bytes(v: &Vec<u8>) -> (r: Vec<u8>)
    ensures
        r@ == v@,
{
    vstd::slice::slice_to_vec(v.as_slice())
}

/// The bytes of an optional byte vector.
pub open spec fn opt_bytes_view(o: Option<Vec<u8>>) -> Option<Seq<u8>> {
    match o {
        Some(v) => Some(v@),
        None => None,
    }
}

/// Copies an optional byte vector.
pub fn clone_opt_bytes(v: &Option<Vec<u8>>) -> (r: Option<Vec<u8>>)
    ensures
        opt_bytes_view(r) == opt_bytes_view(*v),
{
    match v {
        Some(b) => Some(clone_bytes(b)),
        None => None,
    }
}

/// An owned, immutable byte buffer holding one document or one span of it.
#[derive(Debug, Clone, PartialEq)]
pub struct MdChars {
    data: Vec<u8>,
}

impl View for MdChars {
    type V = Seq<u8>;

    closed spec fn view(&self) -> Seq<u8> {
        self.data@
    }
}

impl DeepView for MdChars {
    type V = Seq<u8>;

    open spec fn deep_view(&self) -> Seq<u8> {
        self.view()
    }
}

impl MdChars {
    /// Copies the given bytes into a fresh buffer.
    pub fn new(data: &[u8]) -> (r: Self)
        ensures
            r@ == data@,
    {
        MdChars { data: vstd::slice::slice_to_vec(data) }
    }

    pub fn len(&self) -> (r: usize)
        ensures
            r == self@.len(),
    {
        self.data.len()
    }

    pub fn is_empty(&self) -> (r: bool)
        ensures
            r == (self@.len() == 0),
    {
        self.data.len() == 0
    }

    pub fn as_bytes(&self) -> (r: &[u8])
        ensures
            r@ == self@,
    {
        self.data.as_slice()
    }

    /// Copies the buffer's bytes out into a vector.
    pub fn to_vec(&self) -> (r: Vec<u8>)
        ensures
            r@ == self@,
    {
        vstd::slice::slice_to_vec(self.data.as_slice())
    }

    /// The byte at position `index`.
    pub fn at(&self, index: usize) -> (r: u8)
        requires
            index < self@.len(),
        ensures
            r == self@[index as int],
    {
        self.data[index]
    }

    /// Overwrites the byte at position `index`.
    pub fn set(&mut self, index: usize, value: u8)
        requires
            index < old(self)@.len(),
        ensures
            final(self)@ == old(self)@.update(index as int, value),
    {
        self.data[index] = value;
    }
}

/// A cursor over an [`MdChars`] buffer. The cursor never moves outside
/// `0 ..= buffer length`.
#[derive(Debug, Clone)]
pub struct MdCharsIter {
    offset: usize,
    data: MdChars,
}

impl MdCharsIter {
    /// The underlying bytes; they never change while scanning.
    pub closed spec fn bytes(&self) -> Seq<u8> {
        self.data@
    }

    /// The cursor position.
    pub closed spec fn pos(&self) -> int {
        self.offset as int
    }

    /// Well-formedness: the cursor stays within the buffer.
    pub open spec fn wf(&self) -> bool {
        0 <= self.pos() <= self.bytes().len()
    }

    /// The byte under the cursor, or the sentinel `0` at the end.
    pub open spec fn peek_spec(&self) -> u8 {
        if self.pos() == self.bytes().len() {
            0
        } else {
            self.bytes()[self.pos()]
        }
    }

    /// Starts a cursor at the beginning of the given buffer.
    pub fn new(data: MdChars) -> (r: Self)
        ensures
            r.wf(),
            r.bytes() == data@,
            r.pos() == 0,
    {
        MdCharsIter { offset: 0, data }
    }

    /// Is the cursor at the end, with every byte consumed?
    pub fn is_end(&self) -> (r: bool)
        requires
            self.wf(),
        ensures
            r == (self.pos() >= self.bytes().len()),
    {
        self.offset >= self.data.len()
    }

    /// Current byte without consuming it; `0` at the end.
    pub fn peek(&self) -> (r: u8)
        requires
            self.wf(),
        ensures
            r == self.peek_spec(),
    {
        if self.data.len() == self.offset {
            0
        } else {
            self.data.at(self.offset)
        }
    }

    /// Non-consuming single-byte match against the sentinel-extended buffer.
    pub fn check(&self, target: u8) -> (r: bool)
        requires
            self.wf(),
        ensures
            r == (self.peek_spec() == target),
    {
        self.peek() == target
    }

    /// Non-consuming match of a whole byte sequence at the cursor.
    #[verifier::loop_isolation(false)]
    pub fn check_multi(&self, target: &[u8]) -> (r: bool)
        requires
            self.wf(),
        ensures
            r == match_at(self.bytes(), self.pos(), target@),
    {
        if self.data.len() - self.offset < target.len() {
            return false;
        }
        let n: usize = target.len();
        let mut i: usize = 0;
        while i < n
            invariant
                0 <= i <= n,
                forall|j: int| 0 <= j < i ==> self.bytes()[self.pos() + j] == target@[j],
            decreases n - i,
        {
            if self.data.at(self.offset + i) != target[i] {
                assert(self.bytes().subrange(self.pos(), self.pos() + n as int)[i as int]
                    != target@[i as int]);
                return false;
            }
            i = i + 1;
        }
        assert(self.bytes().subrange(self.pos(), self.pos() + n as int) =~= target@);
        true
    }

    /// Non-consuming match of a string's bytes at the cursor.
    pub fn check_str(&self, target: &str) -> (r: bool)
        requires
            self.wf(),
        ensures
            r == match_at(self.bytes(), self.pos(), target.spec_bytes()),
    {
        self.check_multi(target.as_bytes())
    }

    /// Consumes and returns the byte under the cursor, or `None` at the end.
    pub fn next(&mut self) -> (r: Option<u8>)
        requires
            old(self).wf(),
        ensures
            final(self).wf(),
            final(self).bytes() == old(self).bytes(),
            old(self).pos() < old(self).bytes().len() ==> {
                &&& r == Some(old(self).bytes()[old(self).pos()])
                &&& final(self).pos() == old(self).pos() + 1
            },
            old(self).pos() == old(self).bytes().len() ==> {
                &&& r is None
                &&& final(self).pos() == old(self).pos()
            },
    {
        if self.offset < self.data.len() {
            let item = self.data.at(self.offset);
            self.offset = self.offset + 1;
            Some(item)
        } else {
            None
        }
    }

    /// Consumes bytes up to and excluding the terminator `end`, advancing
    /// past it. If the terminator never occurs, the rest of the buffer is
    /// returned and the cursor moves to the end, so malformed or unterminated
    /// input degrades gracefully. A zero terminator can also match the
    /// end-of-buffer sentinel.
    #[verifier::loop_isolation(false)]
    pub fn slice_to_byte(&mut self, end: u8) -> (r: Vec<u8>)
        requires
            old(self).wf(),
        ensures
            final(self).wf(),
            final(self).bytes() == old(self).bytes(),
            ({
                let s = old(self).bytes();
                let start = old(self).pos();
                let p = scan_to_byte(s, start, end);
                if p >= 0 {
                    &&& r@ == s.subrange(start, p)
                    &&& final(self).pos() == (if p < s.len() { p + 1 } else { s.len() as int })
                } else {
                    &&& r@ == s.subrange(start, s.len() as int)
                    &&& final(self).pos() == s.len()
                }
            }),
    {
        let ghost s = self.bytes();
        let ghost start = self.pos();
        let dlen: usize = self.data.len();
        assert(s.len() == dlen);
        let mut out: Vec<u8> = Vec::new();
        loop
            invariant
                self.wf(),
                self.bytes() == s,
                start <= self.pos() <= s.len(),
                out@ == s.subrange(start, self.pos()),
                scan_to_byte(s, start, end) == scan_to_byte(s, self.pos(), end),
            decreases s.len() - self.pos() + 1,
        {
            if self.check(end) {
                assert(scan_to_byte(s, self.pos(), end) == self.pos());
                if self.offset < self.data.len() {
                    self.offset = self.offset + 1;
                }
                return out;
            } else {
                if self.data.len() - self.offset > 1 {
                    let b = self.data.at(self.offset);
                    out.push(b);
                    self.offset = self.offset + 1;
                    assert(out@ =~= s.subrange(start, self.pos()));
                } else {
                    assert(scan_to_byte(s, self.pos(), end) == -1);
                    if self.offset < self.data.len() {
                        let b = self.data.at(self.offset);
                        out.push(b);
                        assert(out@ =~= s.subrange(start, s.len() as int));
                    } else {
                        assert(out@ =~= s.subrange(start, s.len() as int));
                    }
                    self.offset = self.data.len();
                    return out;
                }
            }
        }
    }

    /// Consumes bytes up to and excluding the terminator sequence `end`,
    /// advancing past it; when the scan gives up, the rest of the buffer is
    /// returned and the cursor parks at the end.
    #[verifier::loop_isolation(false)]
    pub fn slice_to_array(&mut self, end: &[u8]) -> (r: Vec<u8>)
        requires
            old(self).wf(),
        ensures
            final(self).wf(),
            final(self).bytes() == old(self).bytes(),
            ({
                let s = old(self).bytes();
                let start = old(self).pos();
                let p = scan_to_seq(s, start, end@);
                if p >= 0 {
                    &&& r@ == s.subrange(start, p)
                    &&& final(self).pos() == p + end@.len()
                } else {
                    &&& r@ == s.subrange(start, s.len() as int)
                    &&& final(self).pos() == s.len()
                }
            }),
    {
        let ghost s = self.bytes();
        let ghost start = self.pos();
        let dlen: usize = self.data.len();
        assert(s.len() == dlen);
        let mut out: Vec<u8> = Vec::new();
        loop
            invariant
                self.wf(),
                self.bytes() == s,
                start <= self.pos() <= s.len(),
                out@ == s.subrange(start, self.pos()),
                scan_to_seq(s, start, end@) == scan_to_seq(s, self.pos(), end@),
            decreases s.len() - self.pos() + 1,
        {
            if self.check_multi(end) {
                assert(scan_to_seq(s, self.pos(), end@) == self.pos());
                self.offset = self.offset + end.len();
                return out;
            } else {
                if self.data.len() - self.offset > end.len() {
                    let b = self.data.at(self.offset);
                    out.push(b);
                    self.offset = self.offset + 1;
                    assert(out@ =~= s.subrange(start, self.pos()));
                } else {
                    assert(scan_to_seq(s, self.pos(), end@) == -1);
                    while self.offset < self.data.len()
                        invariant
                            self.wf(),
                            self.bytes() == s,
                            start <= self.pos() <= s.len(),
                            out@ == s.subrange(start, self.pos()),
                        decreases s.len() - self.pos(),
                    {
                        let b = self.data.at(self.offset);
                        out.push(b);
                        self.offset = self.offset + 1;
                        assert(out@ =~= s.subrange(start, self.pos()));
                    }
                    return out;
                }
            }
        }
    }

    /// The two-terminator variant: the long close `end` is tried first at
    /// each position, then the short close `short_end`; whichever matches is
    /// consumed. Advancing is governed by `end`'s length, as in
    /// [`Self::slice_to_array`].
    #[verifier::loop_isolation(false)]
    pub fn slice_to_array_2(&mut self, end: &[u8], short_end: &[u8]) -> (r: Vec<u8>)
        requires
            old(self).wf(),
        ensures
            final(self).wf(),
            final(self).bytes() == old(self).bytes(),
            ({
                let s = old(self).bytes();
                let start = old(self).pos();
                let p = scan_to_seq2(s, start, end@, short_end@);
                if p >= 0 {
                    &&& r@ == s.subrange(start, p)
                    &&& final(self).pos() == p + (if match_at(s, p, end@) {
                        end@.len() as int
                    } else {
                        short_end@.len() as int
                    })
                } else {
                    &&& r@ == s.subrange(start, s.len() as int)
                    &&& final(self).pos() == s.len()
                }
            }),
    {
        let ghost s = self.bytes();
        let ghost start = self.pos();
        let dlen: usize = self.data.len();
        assert(s.len() == dlen);
        let mut out: Vec<u8> = Vec::new();
        loop
            invariant
                self.wf(),
                self.bytes() == s,
                start <= self.pos() <= s.len(),
                out@ == s.subrange(start, self.pos()),
                scan_to_seq2(s, start, end@, short_end@) == scan_to_seq2(
                    s,
                    self.pos(),
                    end@,
                    short_end@,
                ),
            decreases s.len() - self.pos() + 1,
        {
            if self.check_multi(end) {
                assert(scan_to_seq2(s, self.pos(), end@, short_end@) == self.pos());
                self.offset = self.offset + end.len();
                return out;
            } else if self.check_multi(short_end) {
                assert(scan_to_seq2(s, self.pos(), end@, short_end@) == self.pos());
                self.offset = self.offset + short_end.len();
                return out;
            } else {
                if self.data.len() - self.offset > end.len() {
                    let b = self.data.at(self.offset);
                    out.push(b);
                    self.offset = self.offset + 1;
                    assert(out@ =~= s.subrange(start, self.pos()));
                } else {
                    assert(scan_to_seq2(s, self.pos(), end@, short_end@) == -1);
                    while self.offset < self.data.len()
                        invariant
                            self.wf(),
                            self.bytes() == s,
                            start <= self.pos() <= s.len(),
                            out@ == s.subrange(start, self.pos()),
                        decreases s.len() - self.pos(),
                    {
                        let b = self.data.at(self.offset);
                        out.push(b);
                        self.offset = self.offset + 1;
                        assert(out@ =~= s.subrange(start, self.pos()));
                    }
                    return out;
                }
            }
        }
    }

    /// [`Self::slice_to_array_2`] with string terminators.
    pub fn slice_to_str_2(&mut self, end: &str, short_end: &str) -> (r: Vec<u8>)
        requires
            old(self).wf(),
        ensures
            final(self).wf(),
            final(self).bytes() == old(self).bytes(),
            ({
                let s = old(self).bytes();
                let start = old(self).pos();
                let p = scan_to_seq2(s, start, end.spec_bytes(), short_end.spec_bytes());
                if p >= 0 {
                    &&& r@ == s.subrange(start, p)
                    &&& final(self).pos() == p + (if match_at(s, p, end.spec_bytes()) {
                        end.spec_bytes().len() as int
                    } else {
                        short_end.spec_bytes().len() as int
                    })
                } else {
                    &&& r@ == s.subrange(start, s.len() as int)
                    &&& final(self).pos() == s.len()
                }
            }),
    {
        self.slice_to_array_2(end.as_bytes(), short_end.as_bytes())
    }

    /// [`Self::slice_to_array`] with a string terminator.
    pub fn slice_to_str(&mut self, end: &str) -> (r: Vec<u8>)
        requires
            old(self).wf(),
        ensures
            final(self).wf(),
            final(self).bytes() == old(self).bytes(),
            ({
                let s = old(self).bytes();
                let start = old(self).pos();
                let p = scan_to_seq(s, start, end.spec_bytes());
                if p >= 0 {
                    &&& r@ == s.subrange(start, p)
                    &&& final(self).pos() == p + end.spec_bytes().len()
                } else {
                    &&& r@ == s.subrange(start, s.len() as int)
                    &&& final(self).pos() == s.len()
                }
            }),
    {
        self.slice_to_array(end.as_bytes())
    }
}

} // verus!
