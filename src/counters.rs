use vstd::prelude::*;
use vstd::string::StrSliceExecFns;
use vstd::string::StringExecFns;

verus! {

/// True when every character of `s` is an ASCII decimal digit.
pub open spec fn all_digits(s: Seq<char>) -> bool {
    forall|i: int| 0 <= i < s.len() ==> '0' <= #[trigger] s[i] <= '9'
}

/// The value of a run of decimal digits, most significant first.
pub open spec fn digits_value(s: Seq<char>) -> nat
    decreases s.len(),
{
    if s.len() == 0 {
        0
    } else {
        digits_value(s.drop_last()) * 10 + ((s.last() as nat) - ('0' as nat)) as nat
    }
}

/// The digits that follow an optional leading `+`.
pub open spec fn unsigned_digits(s: Seq<char>) -> Seq<char> {
    if s.len() > 0 && s[0] == '+' {
        s.drop_first()
    } else {
        s
    }
}

/// How a text reads as an unsigned 64-bit decimal number: an optional `+`,
/// then one or more digits, with a value that fits in 64 bits.
pub open spec fn decimal_u64(s: Seq<char>) -> Option<u64> {
    let d = unsigned_digits(s);
    if d.len() > 0 && all_digits(d) && digits_value(d) <= u64::MAX {
        Some(digits_value(d) as u64)
    } else {
        None
    }
}

proof fn lemma_digits_value_prefix_monotone(s: Seq<char>, i: int)
    requires
        0 <= i <= s.len(),
        all_digits(s),
    ensures
        digits_value(s.subrange(0, i)) <= digits_value(s),
    decreases s.len(),
{
    if i < s.len() {
        let t = s.drop_last();
        assert(all_digits(t));
        lemma_digits_value_prefix_monotone(t, i);
        assert(t.subrange(0, i) =~= s.subrange(0, i));
        assert('0' <= s[s.len() - 1] <= '9');
    } else {
        assert(s.subrange(0, i) =~= s);
    }
}

/// Reads `text` as an unsigned 64-bit decimal number, as `u64`'s `FromStr`
/// does: no surrounding whitespace, an optional `+`, at least one digit.
pub fn parse_counter(text: &str) -> (r: Option<u64>)
    ensures
        r == decimal_u64(text@),
{
    let len = text.unicode_len();
    let mut start: usize = 0;
    if len > 0 && text.get_char(0) == '+' {
        start = 1;
    }
    let ghost d = unsigned_digits(text@);
    assert(d =~= text@.subrange(start as int, len as int));
    if start == len {
        return None;
    }
    let mut value: u64 = 0;
    let mut i: usize = start;
    while i < len
        invariant
            start <= i <= len,
            len == text@.len(),
            d == text@.subrange(start as int, len as int),
            d == unsigned_digits(text@),
            all_digits(d.subrange(0, i - start)),
            value as nat == digits_value(d.subrange(0, i - start)),
        decreases len - i,
    {
        let c = text.get_char(i);
        if c < '0' || c > '9' {
            assert(d[i - start] == c);
            assert(!all_digits(d));
            return None;
        }
        let digit: u64 = (c as u64) - ('0' as u64);
        let ghost next = d.subrange(0, i + 1 - start);
        assert(next.drop_last() =~= d.subrange(0, i - start));
        assert(next.last() == c);
        if value > (u64::MAX - digit) / 10 {
            proof {
                assert(value * 10 + digit > u64::MAX) by (nonlinear_arith)
                    requires
                        value > (u64::MAX - digit) / 10,
                        digit <= 9,
                ;
                assert(digits_value(next) == value * 10 + digit);
                if all_digits(d) {
                    lemma_digits_value_prefix_monotone(d, i + 1 - start);
                }
                assert(decimal_u64(text@) is None);
            }
            return None;
        }
        assert(value * 10 + digit <= u64::MAX) by (nonlinear_arith)
            requires
                value <= (u64::MAX - digit) / 10,
                digit <= 9,
        ;
        value = value * 10 + digit;
        i = i + 1;
    }
    assert(d.subrange(0, i - start) =~= d);
    Some(value)
}


/// The text without its leading and trailing whitespace, as `str::trim`
/// gives it.
pub uninterp spec fn trimmed(s: Seq<char>) -> Seq<char>;

/// Relies on `str::trim`: the slice of `s` without leading and trailing
/// whitespace, which depends on the characters of `s` alone.
#[verifier::external_body]
fn trim_text<'a>(s: &'a str) -> (r: &'a str)
    ensures
        r@ == trimmed(s@),
{
    s.trim()
}

/// Reads the content of a counter file: a decimal number, possibly with
/// surrounding whitespace such as the kernel's trailing newline.
pub fn read_sysfs_as_u64(content: &str) -> (r: Option<u64>)
    ensures
        r == decimal_u64(trimmed(content@)),
{
    parse_counter(trim_text(content))
}

/// Cumulative received and transmitted byte counts of one interface.
#[derive(Clone, Copy, Debug, PartialEq, Eq, Structural)]
pub struct ByteCounters {
    pub rx: u64,
    pub tx: u64,
}

/// Why the counters of an interface whose statistics are present could not
/// be read.
#[derive(Clone, Copy, Debug, PartialEq, Eq, Structural)]
pub enum CounterError {
    /// The receive counter does not read as a number.
    RxMalformed,
    /// The receive counter is there but the transmit counter is not.
    TxMissing,
    /// The transmit counter does not read as a number.
    TxMalformed,
}

/// The characters of an optional text.
pub open spec fn text_view(o: Option<&str>) -> Option<Seq<char>> {
    match o {
        Some(s) => Some(s@),
        None => None,
    }
}

/// The counters read from the contents of an interface's receive and
/// transmit counter files, `None` where a file is absent. Without a receive
/// counter the interface counts as idle: both counters are zero.
pub open spec fn counters_of(rx: Option<Seq<char>>, tx: Option<Seq<char>>) -> Result<
    ByteCounters,
    CounterError,
> {
    match rx {
        None => Ok(ByteCounters { rx: 0, tx: 0 }),
        Some(rx_text) => match decimal_u64(trimmed(rx_text)) {
            None => Err(CounterError::RxMalformed),
            Some(rx_value) => match tx {
                None => Err(CounterError::TxMissing),
                Some(tx_text) => match decimal_u64(trimmed(tx_text)) {
                    None => Err(CounterError::TxMalformed),
                    Some(tx_value) => Ok(ByteCounters { rx: rx_value, tx: tx_value }),
                },
            },
        },
    }
}

/// Turns the contents of an interface's `rx_bytes` and `tx_bytes` files
/// into its byte counters; an absent `rx_bytes` gives zero counters.
pub fn get_net_bytes(rx_content: Option<&str>, tx_content: Option<&str>) -> (r: Result<
    ByteCounters,
    CounterError,
>)
    ensures
        r == counters_of(text_view(rx_content), text_view(tx_content)),
        rx_content is None ==> r == Ok::<ByteCounters, CounterError>(ByteCounters { rx: 0, tx: 0 }),
{
    match rx_content {
        None => Ok(ByteCounters { rx: 0, tx: 0 }),
        Some(rx_text) => match read_sysfs_as_u64(rx_text) {
            None => Err(CounterError::RxMalformed),
            Some(rx) => match tx_content {
                None => Err(CounterError::TxMissing),
                Some(tx_text) => match read_sysfs_as_u64(tx_text) {
                    None => Err(CounterError::TxMalformed),
                    Some(tx) => Ok(ByteCounters { rx, tx }),
                },
            },
        },
    }
}

/// Name of the file that holds an interface's received byte count.
pub const RX_BYTES: &'static str = "rx_bytes";

/// Name of the file that holds an interface's transmitted byte count.
pub const TX_BYTES: &'static str = "tx_bytes";

/// The directory under which the kernel lists network interfaces.
pub open spec fn net_class_dir() -> Seq<char> {
    "/sys/class/net/"@
}

/// Path of the directory of the interface `iface_name`.
pub fn interface_path(iface_name: &str) -> (r: String)
    ensures
        r@ == net_class_dir() + iface_name@,
{
    let mut path = String::from_str("/sys/class/net/");
    path.append(iface_name);
    path
}

/// Path of the statistics file `counter_name` of the interface `iface_name`.
pub fn counter_file_path(iface_name: &str, counter_name: &str) -> (r: String)
    ensures
        r@ == net_class_dir() + iface_name@ + "/statistics/"@ + counter_name@,
{
    let mut path = interface_path(iface_name);
    path.append("/statistics/");
    path.append(counter_name);
    path
}

} // verus!
