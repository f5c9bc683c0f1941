use vstd::prelude::*;

verus! {

/// Settings of the listening socket.
#[derive(Clone)]
pub struct Server {
    /// Size in bytes of the buffer that a datagram is received into.
    pub buffer_size: usize,
    /// Host name or address to bind to.
    pub host: String,
    /// Port to bind to.
    pub port: u16,
}

/// The service configuration.
#[derive(Clone)]
pub struct Config {
    pub server: Server,
}

/// The character of a decimal digit.
pub open spec fn digit_char(d: nat) -> char {
    if d == 0 {
        '0'
    } else if d == 1 {
        '1'
    } else if d == 2 {
        '2'
    } else if d == 3 {
        '3'
    } else if d == 4 {
        '4'
    } else if d == 5 {
        '5'
    } else if d == 6 {
        '6'
    } else if d == 7 {
        '7'
    } else if d == 8 {
        '8'
    } else {
        '9'
    }
}

/// The decimal notation of `n`, without leading zeros.
pub open spec fn decimal(n: nat) -> Seq<char>
    decreases n,
{
    if n < 10 {
        seq![digit_char(n)]
    } else {
        decimal(n / 10) + seq![digit_char(n % 10)]
    }
}

/// The one-character text of a decimal digit.
fn digit_str(d: u16) -> (s: &'static str)
    requires
        d < 10,
    ensures
        s@ == seq![digit_char(d as nat)],
{
    proof {
        reveal_strlit("0");
        reveal_strlit("1");
        reveal_strlit("2");
        reveal_strlit("3");
        reveal_strlit("4");
        reveal_strlit("5");
        reveal_strlit("6");
        reveal_strlit("7");
        reveal_strlit("8");
        reveal_strlit("9");
    }
    if d == 0 {
        "0"
    } else if d == 1 {
        "1"
    } else if d == 2 {
        "2"
    } else if d == 3 {
        "3"
    } else if d == 4 {
        "4"
    } else if d == 5 {
        "5"
    } else if d == 6 {
        "6"
    } else if d == 7 {
        "7"
    } else if d == 8 {
        "8"
    } else {
        "9"
    }
}

/// Appends the decimal notation of `n` to `s`.
fn append_decimal(s: &mut String, n: u16)
    ensures
        final(s)@ == old(s)@ + decimal(n as nat),
    decreases n,
{
    if n >= 10 {
        append_decimal(s, n / 10);
    }
    s.append(digit_str(n % 10));
    proof {
        if n >= 10 {
            assert(old(s)@ + decimal((n / 10) as nat) + seq![digit_char((n % 10) as nat)] =~= old(
                s,
            )@ + decimal(n as nat));
        } else {
            assert(n % 10 == n);
        }
    }
}

/// Whether `c` is one of the characters `'0'` to `'9'`.
pub open spec fn is_digit_char(c: char) -> bool {
    48 <= (c as u32) <= 57
}

/// The number that a text of decimal digits denotes, reading each character
/// by its code point minus the code point of `'0'`.
pub open spec fn decimal_value(s: Seq<char>) -> int
    decreases s.len(),
{
    if s.len() == 0 {
        0
    } else {
        decimal_value(s.drop_last()) * 10 + ((s.last() as u32) - 48)
    }
}

/// Each digit character is the character `d` places after `'0'`.
pub proof fn digit_char_code(d: nat)
    requires
        d < 10,
    ensures
        (digit_char(d) as u32) == 48 + d,
{
}

/// The decimal text of `n` is made of digit characters only, has no leading
/// zero (a zero is written as the one character `'0'`), and reads back as `n`.
pub proof fn decimal_reads_back(n: nat)
    ensures
        decimal(n).len() >= 1,
        forall|i: int| 0 <= i < decimal(n).len() ==> is_digit_char(#[trigger] decimal(n)[i]),
        decimal(n).len() == 1 || decimal(n)[0] != '0',
        decimal_value(decimal(n)) == n,
    decreases n,
{
    if n < 10 {
        digit_char_code(n);
        assert(seq![digit_char(n)].drop_last() =~= Seq::<char>::empty());
        assert(decimal_value(Seq::<char>::empty()) == 0);
        assert(decimal(n).last() == digit_char(n));
    } else {
        decimal_reads_back(n / 10);
        digit_char_code(n % 10);
        let s = decimal(n);
        assert(s.drop_last() =~= decimal(n / 10));
        assert(s.last() == digit_char(n % 10));
        assert(decimal_value(s) == decimal_value(decimal(n / 10)) * 10 + (n % 10));
        assert((n / 10) * 10 + n % 10 == n);
        assert forall|i: int| 0 <= i < s.len() implies is_digit_char(#[trigger] s[i]) by {
            if i < s.len() - 1 {
                assert(s[i] == decimal(n / 10)[i]);
            }
        }
        assert(s[0] == decimal(n / 10)[0]);
        let t = decimal(n / 10);
        if t.len() == 1 {
            assert(t.drop_last() =~= Seq::<char>::empty());
            assert(decimal_value(Seq::<char>::empty()) == 0);
            assert(t.last() == t[0]);
            assert(('0' as u32) == 48);
        }
    }
}

impl Config {
    /// The socket address text `host:port`.
    pub open spec fn spec_addr(&self) -> Seq<char> {
        self.server.host@ + seq![':'] + decimal(self.server.port as nat)
    }

    /// The address to bind to, as `host:port` with the port in decimal.
    pub fn addr(&self) -> (a: String)
        ensures
            a@ == self.spec_addr(),
    {
        let mut a = String::new();
        a.append(self.server.host.as_str());
        proof {
            reveal_strlit(":");
        }
        a.append(":");
        append_decimal(&mut a, self.server.port);
        a
    }

    /// A zeroed receive buffer of `buffer_size` bytes.
    pub fn buf(&self) -> (b: Vec<u8>)
        ensures
            b@.len() == self.server.buffer_size,
            forall|i: int| 0 <= i < b@.len() ==> #[trigger] b@[i] == 0,
    {
        vec![0u8; self.server.buffer_size]
    }
}

/// The address text splits back into its parts: the host, then `':'`, then
/// digit characters without a leading zero that read back as the port.
pub proof fn addr_reads_back(c: Config)
    ensures
        c.spec_addr().take(c.server.host@.len() as int) == c.server.host@,
        c.spec_addr()[c.server.host@.len() as int] == ':',
        forall|i: int|
            c.server.host@.len() < i < c.spec_addr().len() ==> is_digit_char(
                #[trigger] c.spec_addr()[i],
            ),
        decimal_value(c.spec_addr().skip(c.server.host@.len() as int + 1)) == c.server.port,
        c.spec_addr().len() == c.server.host@.len() + 2 || c.spec_addr()[c.server.host@.len() as int + 1]
            != '0',
{
    let h = c.server.host@;
    let d = decimal(c.server.port as nat);
    let a = c.spec_addr();
    decimal_reads_back(c.server.port as nat);
    assert(a.take(h.len() as int) =~= h);
    assert(a.skip(h.len() as int + 1) =~= d);
    assert forall|i: int| h.len() < i < a.len() implies is_digit_char(#[trigger] a[i]) by {
        assert(a[i] == d[i - h.len() - 1]);
    }
}

} // verus!
