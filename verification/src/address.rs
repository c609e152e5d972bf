//! Parsing of 20-byte chain addresses from their hexadecimal string form:
//! an optional `0x` prefix, whitespace ignored, and then exactly forty
//! hexadecimal digits.

use vstd::prelude::*;

verus! {

use vstd::string::StringSliceAdditionalSpecFns;

/// Whitespace bytes the hex reader skips: space, carriage return, line
/// feed, tab.
pub open spec fn is_ws_byte(b: u8) -> bool {
    b == 32 || b == 13 || b == 10 || b == 9
}

/// ASCII hexadecimal digit.
pub open spec fn is_hex_byte(b: u8) -> bool {
    (48 <= b && b <= 57) || (65 <= b && b <= 70) || (97 <= b && b <= 102)
}

/// Numeric value of an ASCII hexadecimal digit.
pub open spec fn hex_val(b: u8) -> u8 {
    if 48 <= b && b <= 57 {
        (b - 48) as u8
    } else if 65 <= b && b <= 70 {
        (b - 55) as u8
    } else {
        (b - 87) as u8
    }
}

/// Drops one leading `0x`, if present.
pub open spec fn strip_0x(s: Seq<u8>) -> Seq<u8> {
    if s.len() >= 2 && s[0] == 48 && s[1] == 120 {
        s.skip(2)
    } else {
        s
    }
}

/// The significant bytes of an address string: everything after the `0x`
/// prefix that is not whitespace.
pub open spec fn sig_hex(s: Seq<u8>) -> Seq<u8> {
    strip_0x(s).filter(|b: u8| !is_ws_byte(b))
}

/// A well-formed address string: exactly forty significant bytes, all of
/// them hexadecimal digits.
pub open spec fn addr_well_formed(s: Seq<u8>) -> bool {
    &&& sig_hex(s).len() == 40
    &&& forall|i: int| 0 <= i < 40 ==> is_hex_byte(#[trigger] sig_hex(s)[i])
}

/// [`addr_well_formed`], over a string's characters.
pub open spec fn addr_ok_str(s: Seq<char>) -> bool {
    addr_well_formed(vstd::utf8::encode_utf8(s))
}

/// [`addr_bytes`], over a string's characters.
pub open spec fn addr_bytes_str(s: Seq<char>) -> Seq<u8> {
    addr_bytes(vstd::utf8::encode_utf8(s))
}

/// The twenty bytes a well-formed address string denotes.
pub open spec fn addr_bytes(s: Seq<u8>) -> Seq<u8> {
    Seq::new(20, |k: int| (hex_val(sig_hex(s)[2 * k]) * 16 + hex_val(sig_hex(s)[2 * k + 1])) as u8)
}

/// A parsed 20-byte chain address.
#[derive(Debug)]
pub struct Address {
    bytes: Vec<u8>,
}

impl View for Address {
    type V = Seq<u8>;

    closed spec fn view(&self) -> Seq<u8> {
        self.bytes@
    }
}

impl Address {
    /// The raw 20 bytes of the address.
    pub fn bytes(&self) -> (r: &Vec<u8>)
        ensures
            r@ == self@,
    {
        &self.bytes
    }

    /// Returns a copy holding the same bytes.
    pub fn duplicate(&self) -> (r: Address)
        ensures
            r@ == self@,
    {
        let mut out: Vec<u8> = Vec::new();
        let n = self.bytes.len();
        let mut i: usize = 0;
        while i < n
            invariant
                n == self.bytes@.len(),
                0 <= i <= n,
                out@ == self.bytes@.take(i as int),
            decreases n - i,
        {
            out.push(self.bytes[i]);
            proof {
                assert(out@ =~= self.bytes@.take(i + 1));
            }
            i = i + 1;
        }
        proof {
            assert(out@ =~= self.bytes@);
        }
        Address { bytes: out }
    }
}

/// Numeric value of one hexadecimal digit byte.
fn hex_val_of(b: u8) -> (r: u8)
    requires
        is_hex_byte(b),
    ensures
        r == hex_val(b),
        r < 16,
{
    if b >= 97 {
        b - 87
    } else if b >= 65 {
        b - 55
    } else {
        b - 48
    }
}

/// One step of filtering a prefix: taking one more byte keeps the filtered
/// prefix, plus that byte if it passes.
proof fn lemma_filter_take_step(s: Seq<u8>, p: spec_fn(u8) -> bool, i: int)
    requires
        0 <= i < s.len(),
    ensures
        s.take(i + 1).filter(p) == (if p(s[i]) {
            s.take(i).filter(p).push(s[i])
        } else {
            s.take(i).filter(p)
        }),
{
    reveal(Seq::filter);
    assert(s.take(i + 1).drop_last() =~= s.take(i));
    assert(s.take(i + 1).last() == s[i]);
}

/// A sequence whose first element passes the filter keeps it first.
proof fn lemma_filter_first(s: Seq<u8>, p: spec_fn(u8) -> bool)
    requires
        s.len() > 0,
        p(s[0]),
    ensures
        s.filter(p).len() > 0,
        s.filter(p)[0] == s[0],
    decreases s.len(),
{
    reveal(Seq::filter);
    if s.len() == 1 {
        assert(s.drop_last() =~= Seq::<u8>::empty());
    } else {
        assert(s.drop_last()[0] == s[0]);
        lemma_filter_first(s.drop_last(), p);
    }
}

/// Parses an address string. Returns the denoted bytes exactly when the
/// string is well-formed, and nothing otherwise.
pub fn parse_address(s: &str) -> (r: Option<Address>)
    ensures
        r is Some <==> addr_well_formed(s.spec_bytes()),
        r is Some ==> r->0@ == addr_bytes(s.spec_bytes()) && r->0@.len() == 20,
{
    let bytes: &[u8] = s.as_bytes();
    let n = bytes.len();
    let ghost p = |b: u8| !is_ws_byte(b);
    let ghost stripped = strip_0x(s.spec_bytes());
    let start: usize = if n >= 2 && bytes[0] == 48 && bytes[1] == 120 {
        2
    } else {
        0
    };
    proof {
        assert(stripped =~= bytes@.skip(start as int));
    }
    let mut sig: Vec<u8> = Vec::new();
    let mut i: usize = start;
    while i < n
        invariant
            start <= i <= n,
            n == bytes@.len(),
            bytes@ == s.spec_bytes(),
            stripped == strip_0x(s.spec_bytes()),
            stripped == bytes@.skip(start as int),
            sig@ == stripped.take(i - start).filter(p),
            p == (|b: u8| !is_ws_byte(b)),
            forall|j: int| 0 <= j < sig@.len() ==> is_hex_byte(#[trigger] sig@[j]),
        decreases n - i,
    {
        let b = bytes[i];
        proof {
            assert(stripped[i - start] == b);
            lemma_filter_take_step(stripped, p, i - start as int);
        }
        if b == 32 || b == 13 || b == 10 || b == 9 {
            // whitespace: skipped
        } else if (48 <= b && b <= 57) || (65 <= b && b <= 70) || (97 <= b && b <= 102) {
            sig.push(b);
        } else {
            proof {
                let rest = stripped.skip(i - start);
                assert(stripped.take(i - start) + rest =~= stripped);
                Seq::filter_distributes_over_add(stripped.take(i - start), rest, p);
                assert(rest[0] == b);
                lemma_filter_first(rest, p);
                assert(sig_hex(s.spec_bytes()) == sig@ + rest.filter(p));
                assert(sig_hex(s.spec_bytes())[sig@.len() as int] == b);
            }
            return None;
        }
        i = i + 1;
    }
    proof {
        assert(stripped.take(n - start) =~= stripped);
        assert(sig@ == sig_hex(s.spec_bytes()));
    }
    if sig.len() != 40 {
        return None;
    }
    let mut out: Vec<u8> = Vec::new();
    let mut k: usize = 0;
    while k < 20
        invariant
            0 <= k <= 20,
            sig@ == sig_hex(s.spec_bytes()),
            sig@.len() == 40,
            forall|j: int| 0 <= j < sig@.len() ==> is_hex_byte(#[trigger] sig@[j]),
            out@.len() == k,
            forall|j: int| 0 <= j < k ==> out@[j] == addr_bytes(s.spec_bytes())[j],
        decreases 20 - k,
    {
        let hi = hex_val_of(sig[2 * k]);
        let lo = hex_val_of(sig[2 * k + 1]);
        out.push(hi * 16 + lo);
        k = k + 1;
    }
    proof {
        assert(out@ =~= addr_bytes(s.spec_bytes()));
    }
    Some(Address { bytes: out })
}

} // verus!
