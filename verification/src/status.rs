use vstd::prelude::*;
use crate::text::push_char;

verus! {

/// Numeric HTTP status code returned by a response.
#[derive(Clone, Copy, Debug, PartialEq, Eq, Structural)]
pub struct StatusCode(pub u16);

impl StatusCode {
    /// The numeric value of the code.
    pub fn as_u16(self) -> (r: u16)
        ensures
            r == self.0,
    {
        self.0
    }

    /// Whether the code lies in the 2xx range.
    pub fn is_success(&self) -> (r: bool)
        ensures
            r == (200 <= self.0 < 300),
    {
        200 <= self.0 && self.0 < 300
    }

    /// Whether the code lies in the 4xx range.
    pub fn is_client_error(&self) -> (r: bool)
        ensures
            r == (400 <= self.0 < 500),
    {
        400 <= self.0 && self.0 < 500
    }

    /// Whether the code lies in the 5xx range.
    pub fn is_server_error(&self) -> (r: bool)
        ensures
            r == (500 <= self.0 < 600),
    {
        500 <= self.0 && self.0 < 600
    }
}

/// The decimal digits of `n`, without leading zeros (`0` for zero).
pub open spec fn decimal_digits(n: nat) -> Seq<char>
    decreases n,
{
    if n < 10 {
        seq![('0' as u32 + n) as char]
    } else {
        decimal_digits(n / 10) + seq![('0' as u32 + n % 10) as char]
    }
}

impl StatusCode {
    /// The code in decimal, as `Display` writes it.
    pub fn to_string(&self) -> (r: String)
        ensures
            r@ == decimal_digits(self.0 as nat),
    {
        let mut digits: Vec<char> = Vec::new();
        let mut n: u16 = self.0;
        let ghost mut rest: Seq<char> = Seq::empty();
        // Collect the digits from the least significant one.
        while n >= 10
            invariant
                decimal_digits(self.0 as nat) == decimal_digits(n as nat) + rest,
                digits@ == rest.reverse(),
            decreases n,
        {
            let d: u16 = n % 10;
            let c = ((48u16 + d) as u8) as char;
            assert(c == ('0' as u32 + (n as nat) % 10) as char);
            proof {
                rest = seq![c] + rest;
            }
            digits.push(c);
            assert(digits@ =~= rest.reverse());
            n = n / 10;
        }
        let c = ((48u16 + n) as u8) as char;
        assert(c == ('0' as u32 + n as nat) as char);
        digits.push(c);
        let ghost all = seq![c] + rest;
        assert(digits@ =~= all.reverse());
        assert(all == decimal_digits(self.0 as nat));
        let mut out = String::new();
        let mut i: usize = digits.len();
        while i > 0
            invariant
                i <= digits@.len(),
                digits@ == all.reverse(),
                out@ == all.take((digits@.len() - i) as int),
            decreases i,
        {
            i = i - 1;
            push_char(&mut out, digits[i]);
            assert(out@ =~= all.take((digits@.len() - i) as int));
        }
        assert(all.take(digits@.len() as int) =~= all);
        out
    }
}


/// The number that decimal digits denote.
pub open spec fn digits_value(s: Seq<char>) -> int
    decreases s.len(),
{
    if s.len() == 0 {
        0
    } else {
        digits_value(s.drop_last()) * 10 + (s.last() as int - '0' as int)
    }
}

/// The decimal text of a code is made of digits, has no leading zero, and
/// reads back as the code.
pub proof fn lemma_decimal_digits_read_back(n: nat)
    ensures
        decimal_digits(n).len() >= 1,
        forall|i: int| 0 <= i < decimal_digits(n).len() ==> '0' <= #[trigger] decimal_digits(n)[i] <= '9',
        decimal_digits(n).len() > 1 ==> decimal_digits(n)[0] != '0',
        n > 0 ==> decimal_digits(n)[0] != '0',
        digits_value(decimal_digits(n)) == n,
    decreases n,
{
    let c = (('0' as u32) + n % 10) as char;
    assert(c as int == 48 + n % 10);
    if n < 10 {
        let d = decimal_digits(n);
        assert(d.drop_last() =~= Seq::<char>::empty());
        assert(d.last() == c);
        assert(digits_value(Seq::<char>::empty()) == 0);
        assert(digits_value(d) == digits_value(d.drop_last()) * 10 + (c as int - '0' as int));
        assert(digits_value(d) == n);
    }
    if n >= 10 {
        let q = n / 10;
        let d = decimal_digits(n);
        let front = decimal_digits(q);
        lemma_decimal_digits_read_back(q);
        assert(d == front + seq![(('0' as u32) + n % 10) as char]);
        assert(d.drop_last() =~= front);
        assert(d[0] == front[0]);
        assert forall|i: int| 0 <= i < d.len() implies '0' <= #[trigger] d[i] <= '9' by {
            if i < front.len() {
                assert(d[i] == front[i]);
            }
        }
        assert(q * 10 + n % 10 == n);
        assert(d.last() == c);
        assert(digits_value(d) == digits_value(front) * 10 + (c as int - '0' as int));
        assert(digits_value(d) == n);
    }
}

} // verus!
