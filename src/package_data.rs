//! Package records and the text the scanner shows for a targeted package.
use vstd::prelude::*;

verus! {

/// A package that the courier can pick up and deliver.
#[derive(Clone, Debug)]
pub struct Package {
    pub recipient: String,
    pub address: String,
    pub country: String,
    pub zip: String,
    pub weight_grams: u32,
    pub hazmat: bool,
}

/// The decimal digit character of `d`, for `d < 10`.
pub open spec fn digit_char(d: nat) -> char {
    if d == 0 {
        '0'
    } else if d == 1 {
        '1'
    } else if d == 2 {
        '2'
    } else if d == 3 {
        '3'
    } else if d == 4 {
        '4'
    } else if d == 5 {
        '5'
    } else if d == 6 {
        '6'
    } else if d == 7 {
        '7'
    } else if d == 8 {
        '8'
    } else {
        '9'
    }
}

/// `n` written in decimal, without leading zeros.
pub open spec fn decimal(n: nat) -> Seq<char>
    decreases n,
{
    if n < 10 {
        seq![digit_char(n)]
    } else {
        decimal(n / 10).push(digit_char(n % 10))
    }
}

/// The value of a decimal digit character.
pub open spec fn digit_value(c: char) -> nat {
    if c == '1' {
        1
    } else if c == '2' {
        2
    } else if c == '3' {
        3
    } else if c == '4' {
        4
    } else if c == '5' {
        5
    } else if c == '6' {
        6
    } else if c == '7' {
        7
    } else if c == '8' {
        8
    } else if c == '9' {
        9
    } else {
        0
    }
}

/// The number that a string of decimal digits denotes.
pub open spec fn decimal_value(s: Seq<char>) -> nat
    decreases s.len(),
{
    if s.len() == 0 {
        0
    } else {
        decimal_value(s.drop_last()) * 10 + digit_value(s.last())
    }
}

/// The weight is rendered exactly: its digits denote the number itself, and
/// there is no leading zero but for zero itself.
pub proof fn lemma_decimal_exact(n: nat)
    ensures
        decimal_value(decimal(n)) == n,
        decimal(n).len() >= 1,
        decimal(n)[0] == '0' ==> n == 0,
    decreases n,
{
    if n >= 10 {
        lemma_decimal_exact(n / 10);
        assert(decimal(n).drop_last() == decimal(n / 10));
        assert(decimal(n)[0] == decimal(n / 10)[0]);
        assert(decimal(n).last() == digit_char(n % 10));
        assert(n == (n / 10) * 10 + n % 10);
    } else {
        assert(decimal(n).drop_last() =~= Seq::<char>::empty());
    }
    let d = n % 10;
    assert(digit_value(digit_char(d)) == d);
    assert(decimal_value(decimal(n)) == decimal_value(decimal(n).drop_last()) * 10 + digit_value(
        decimal(n).last(),
    ));
}

/// The scanner text of a package: one labelled line per field, always in the
/// order recipient, address, country, zip, weight, hazard.
pub open spec fn package_text(p: Package) -> Seq<char> {
    "Recipient: "@ + p.recipient@ + "\nAddress: "@ + p.address@ + "\nCountry: "@ + p.country@
        + "\nZip: "@ + p.zip@ + "\nWeight: "@ + decimal(p.weight_grams as nat) + " g"@ + (if p.hazmat {
        "\nHazmat: yes"@
    } else {
        "\nHazmat: no"@
    })
}

fn digit_str(d: u32) -> (r: &'static str)
    requires
        d < 10,
    ensures
        r@ == seq![digit_char(d as nat)],
{
    proof {
        reveal_strlit("0");
        reveal_strlit("1");
        reveal_strlit("2");
        reveal_strlit("3");
        reveal_strlit("4");
        reveal_strlit("5");
        reveal_strlit("6");
        reveal_strlit("7");
        reveal_strlit("8");
        reveal_strlit("9");
    }
    if d == 0 {
        "0"
    } else if d == 1 {
        "1"
    } else if d == 2 {
        "2"
    } else if d == 3 {
        "3"
    } else if d == 4 {
        "4"
    } else if d == 5 {
        "5"
    } else if d == 6 {
        "6"
    } else if d == 7 {
        "7"
    } else if d == 8 {
        "8"
    } else {
        "9"
    }
}

/// Appends `n` in decimal to `s`.
pub fn push_decimal(s: &mut String, n: u32)
    ensures
        final(s)@ == old(s)@ + decimal(n as nat),
    decreases n,
{
    if n >= 10 {
        push_decimal(s, n / 10);
    }
    s.append(digit_str(n % 10));
    assert(final(s)@ =~= old(s)@ + decimal(n as nat));
}

impl Package {
    pub fn new(
        recipient: String,
        address: String,
        country: String,
        zip: String,
        weight_grams: u32,
        hazmat: bool,
    ) -> (r: Package)
        ensures
            r.recipient@ == recipient@,
            r.address@ == address@,
            r.country@ == country@,
            r.zip@ == zip@,
            r.weight_grams == weight_grams,
            r.hazmat == hazmat,
    {
        Package { recipient, address, country, zip, weight_grams, hazmat }
    }

    /// The text the scanner shows for this package.
    pub fn label_text(&self) -> (r: String)
        ensures
            r@ == package_text(*self),
    {
        let mut s = String::new();
        s.append("Recipient: ");
        s.append(self.recipient.as_str());
        s.append("\nAddress: ");
        s.append(self.address.as_str());
        s.append("\nCountry: ");
        s.append(self.country.as_str());
        s.append("\nZip: ");
        s.append(self.zip.as_str());
        s.append("\nWeight: ");
        push_decimal(&mut s, self.weight_grams);
        s.append(" g");
        if self.hazmat {
            s.append("\nHazmat: yes");
        } else {
            s.append("\nHazmat: no");
        }
        assert(s@ =~= package_text(*self));
        s
    }
}

/// The scanner's text for this tick: the targeted package's text, or nothing
/// when no package is targeted.
pub fn scanner_text(target: Option<&Package>) -> (r: String)
    ensures
        r@ == match target {
            Some(p) => package_text(*p),
            None => Seq::<char>::empty(),
        },
{
    match target {
        Some(p) => p.label_text(),
        None => String::new(),
    }
}

} // verus!
