use vstd::prelude::*;
use vstd::string::StringExecFns;
use crate::rates::RateSample;

verus! {

/// The human-readable text of a byte count in binary units ("1.0 kiB",
/// "215 B"), as bytesize writes it.
pub uninterp spec fn binary_size_of(bytes: u64) -> Seq<char>;

/// Relies on bytesize's `ByteSize::to_string_as` with binary units: its text
/// depends on the count alone, and a count under 1024 is written in plain
/// bytes, so zero is "0 B".
#[verifier::external_body]
fn binary_size_text(bytes: u64) -> (r: String)
    ensures
        r@ == binary_size_of(bytes),
        bytes == 0 ==> r@ == "0 B"@,
{
    bytesize::ByteSize::b(bytes).to_string_as(true)
}

/// `s` right-aligned in a column of `width` characters; a longer `s` is kept
/// whole.
pub open spec fn padded(s: Seq<char>, width: nat) -> Seq<char> {
    if s.len() >= width {
        s
    } else {
        Seq::new((width - s.len()) as nat, |i: int| ' ') + s
    }
}

/// The display line of an interface: its name in eight columns, then the
/// receive and transmit rate texts in nine columns each, per second.
pub open spec fn line_of(name: Seq<char>, rx_text: Seq<char>, tx_text: Seq<char>) -> Seq<char> {
    padded(name, 8) + ": v "@ + padded(rx_text, 9) + "/s ^ "@ + padded(tx_text, 9) + "/s"@
}

fn push_padded(line: &mut String, s: &str, width: usize)
    ensures
        final(line)@ == old(line)@ + padded(s@, width as nat),
{
    let len = s.unicode_len();
    if len < width {
        let ghost start = line@;
        let mut k: usize = 0;
        while k < width - len
            invariant
                k <= width - len,
                len == s@.len(),
                len < width,
                line@ == start + Seq::new(k as nat, |i: int| ' '),
            decreases width - len - k,
        {
            proof {
                reveal_strlit(" ");
            }
            line.append(" ");
            k = k + 1;
            assert(line@ =~= start + Seq::new(k as nat, |i: int| ' '));
        }
        line.append(s);
        assert(line@ =~= start + padded(s@, width as nat));
    } else {
        line.append(s);
    }
}

/// Lays out the display line of an interface from the texts of its rates.
pub fn layout_line(iface_name: &str, rx_text: &str, tx_text: &str) -> (r: String)
    ensures
        r@ == line_of(iface_name@, rx_text@, tx_text@),
{
    let mut line = String::new();
    push_padded(&mut line, iface_name, 8);
    line.append(": v ");
    push_padded(&mut line, rx_text, 9);
    line.append("/s ^ ");
    push_padded(&mut line, tx_text, 9);
    line.append("/s");
    assert(line@ =~= line_of(iface_name@, rx_text@, tx_text@));
    line
}

/// The display line of an interface and its rates, in binary units.
pub fn format_line(iface_name: &str, rate: RateSample) -> (r: String)
    ensures
        r@ == line_of(iface_name@, binary_size_of(rate.rx), binary_size_of(rate.tx)),
{
    let rx_text = binary_size_text(rate.rx);
    let tx_text = binary_size_text(rate.tx);
    layout_line(iface_name, rx_text.as_str(), tx_text.as_str())
}

} // verus!
