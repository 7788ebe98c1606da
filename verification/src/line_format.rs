use vstd::prelude::*;

verus! {

/// The uppercase form of a sequence of characters, as the Unicode case
/// mapping gives it. Left uninterpreted: the mapping itself is owned by the
/// standard library; contracts only carry the name through.
pub uninterp spec fn upper_of(s: Seq<char>) -> Seq<char>;

/// Relies on `str::to_uppercase`: the result depends on the characters alone.
#[verifier::external_body]
fn to_upper(s: &str) -> (r: String)
    ensures
        r@ == upper_of(s@),
{
    s.to_uppercase()
}

/// The view of an optional speaker name.
pub open spec fn speaker_view(speaker: Option<&str>) -> Option<Seq<char>> {
    match speaker {
        Option::Some(name) => Option::Some(name@),
        Option::None => Option::None,
    }
}

/// What a rendered log entry holds: the uppercased speaker name, a
/// `" - "` separator, then the line text; just the text when no speaker
/// is given.
pub open spec fn rendered_line(speaker: Option<Seq<char>>, line: Seq<char>) -> Seq<char> {
    match speaker {
        Option::Some(name) => upper_of(name) + " - "@ + line,
        Option::None => line,
    }
}

/// Renders one dialogue line for the log: `"SPEAKER - text"` when a
/// speaker is present, the bare text otherwise.
pub fn format_line(speaker: Option<&str>, line: &str) -> (r: String)
    ensures
        r@ == rendered_line(speaker_view(speaker), line@),
{
    let mut text = String::new();
    if let Some(name) = speaker {
        text = to_upper(name);
        text.append(" - ");
    }
    text.append(line);
    proof {
        assert(rendered_line(speaker_view(speaker), line@) =~= text@);
    }
    text
}

/// The decimal digit character for a value below ten.
pub open spec fn digit_char(d: nat) -> char {
    if d == 0 {
        '0'
    } else if d == 1 {
        '1'
    } else if d == 2 {
        '2'
    } else if d == 3 {
        '3'
    } else if d == 4 {
        '4'
    } else if d == 5 {
        '5'
    } else if d == 6 {
        '6'
    } else if d == 7 {
        '7'
    } else if d == 8 {
        '8'
    } else {
        '9'
    }
}

/// The decimal rendering of a natural number, most significant digit first.
pub open spec fn decimal_of(n: nat) -> Seq<char>
    decreases n,
{
    if n < 10 {
        seq![digit_char(n)]
    } else {
        decimal_of(n / 10).push(digit_char(n % 10))
    }
}

fn digit_str(d: u64) -> (r: &'static str)
    requires
        d < 10,
    ensures
        r@ == seq![digit_char(d as nat)],
{
    let r = match d {
        0 => "0",
        1 => "1",
        2 => "2",
        3 => "3",
        4 => "4",
        5 => "5",
        6 => "6",
        7 => "7",
        8 => "8",
        _ => "9",
    };
    proof {
        reveal_strlit("0");
        reveal_strlit("1");
        reveal_strlit("2");
        reveal_strlit("3");
        reveal_strlit("4");
        reveal_strlit("5");
        reveal_strlit("6");
        reveal_strlit("7");
        reveal_strlit("8");
        reveal_strlit("9");
        assert(r@ =~= seq![digit_char(d as nat)]);
    }
    r
}

/// Renders a number in decimal, for the hotkey prefix of an option label.
pub fn decimal_string(n: u64) -> (r: String)
    ensures
        r@ == decimal_of(n as nat),
    decreases n,
{
    if n < 10 {
        let mut s = String::new();
        s.append(digit_str(n));
        proof {
            assert(s@ =~= decimal_of(n as nat));
        }
        s
    } else {
        let mut s = decimal_string(n / 10);
        s.append(digit_str(n % 10));
        proof {
            assert(s@ =~= decimal_of(n as nat));
        }
        s
    }
}

} // verus!
