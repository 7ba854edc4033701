//! Signal strengths as the bot shows them: parsed from their names, with a
//! label, an emoji and colors for embeds and charts.
use crate::text::str_equal;
use vstd::prelude::*;

verus! {

/// How strongly an analysis leans to buying or selling.
#[derive(Debug, Clone, Copy, PartialEq, Eq, Structural)]
pub enum SignalStrength {
    StrongBuy,
    Buy,
    WeakBuy,
    Neutral,
    WeakSell,
    Sell,
    StrongSell,
}

/// Embed color for buy-side signals.
pub const COLOR_GREEN: u32 = 0x00FF00;

/// Embed color for sell-side signals.
pub const COLOR_RED: u32 = 0xFF0000;

/// Embed color for a neutral signal.
pub const COLOR_GOLD: u32 = 0xFFD700;

/// The signal a name denotes ("StrongBuy", "Buy", ...); any other name is
/// neutral.
pub open spec fn signal_named(s: Seq<char>) -> SignalStrength {
    if s == "StrongBuy"@ {
        SignalStrength::StrongBuy
    } else if s == "Buy"@ {
        SignalStrength::Buy
    } else if s == "WeakBuy"@ {
        SignalStrength::WeakBuy
    } else if s == "WeakSell"@ {
        SignalStrength::WeakSell
    } else if s == "Sell"@ {
        SignalStrength::Sell
    } else if s == "StrongSell"@ {
        SignalStrength::StrongSell
    } else {
        SignalStrength::Neutral
    }
}

pub fn parse_signal(s: &str) -> (r: SignalStrength)
    ensures
        r == signal_named(s@),
        s@ == "StrongBuy"@ ==> r == SignalStrength::StrongBuy,
        s@ == "Buy"@ ==> r == SignalStrength::Buy,
        s@ == "WeakBuy"@ ==> r == SignalStrength::WeakBuy,
        s@ == "WeakSell"@ ==> r == SignalStrength::WeakSell,
        s@ == "Sell"@ ==> r == SignalStrength::Sell,
        s@ == "StrongSell"@ ==> r == SignalStrength::StrongSell,
        r == SignalStrength::Neutral <==> (s@ != "StrongBuy"@ && s@ != "Buy"@ && s@ != "WeakBuy"@
            && s@ != "WeakSell"@ && s@ != "Sell"@ && s@ != "StrongSell"@),
{
    proof {
        law_signal_names_parse_back(s@);
    }
    if str_equal(s, "StrongBuy") {
        SignalStrength::StrongBuy
    } else if str_equal(s, "Buy") {
        SignalStrength::Buy
    } else if str_equal(s, "WeakBuy") {
        SignalStrength::WeakBuy
    } else if str_equal(s, "WeakSell") {
        SignalStrength::WeakSell
    } else if str_equal(s, "Sell") {
        SignalStrength::Sell
    } else if str_equal(s, "StrongSell") {
        SignalStrength::StrongSell
    } else {
        SignalStrength::Neutral
    }
}

/// The signal named by a response's `overall_signal` field, where the
/// field holds a string; neutral where it is missing or not a string.
pub fn parse_signal_from_field(field: Option<&str>) -> (r: SignalStrength)
    ensures
        r == (match field {
            Some(s) => signal_named(s@),
            None => SignalStrength::Neutral,
        }),
{
    match field {
        Some(s) => parse_signal(s),
        None => SignalStrength::Neutral,
    }
}

/// Whether the signal leans to buying.
pub open spec fn is_buy_side(s: SignalStrength) -> bool {
    s == SignalStrength::StrongBuy || s == SignalStrength::Buy || s == SignalStrength::WeakBuy
}

/// Whether the signal leans to selling.
pub open spec fn is_sell_side(s: SignalStrength) -> bool {
    s == SignalStrength::WeakSell || s == SignalStrength::Sell || s == SignalStrength::StrongSell
}

/// Embed color: green for buy-side signals, red for sell-side ones, gold for
/// neutral.
pub fn signal_color(signal: &SignalStrength) -> (r: u32)
    ensures
        r == (if is_buy_side(*signal) {
            COLOR_GREEN
        } else if is_sell_side(*signal) {
            COLOR_RED
        } else {
            COLOR_GOLD
        }),
{
    match signal {
        SignalStrength::StrongBuy | SignalStrength::Buy | SignalStrength::WeakBuy => COLOR_GREEN,
        SignalStrength::Neutral => COLOR_GOLD,
        SignalStrength::WeakSell | SignalStrength::Sell | SignalStrength::StrongSell => COLOR_RED,
    }
}

pub open spec fn emoji_of(s: SignalStrength) -> Seq<char> {
    match s {
        SignalStrength::StrongBuy => "\u{1F680}"@,
        SignalStrength::Buy => "\u{1F4C8}"@,
        SignalStrength::WeakBuy => "\u{2197}\u{FE0F}"@,
        SignalStrength::Neutral => "\u{27A1}\u{FE0F}"@,
        SignalStrength::WeakSell => "\u{2198}\u{FE0F}"@,
        SignalStrength::Sell => "\u{1F4C9}"@,
        SignalStrength::StrongSell => "\u{26A0}\u{FE0F}"@,
    }
}

/// The emoji shown beside a signal.
pub fn signal_emoji(signal: &SignalStrength) -> (r: &'static str)
    ensures
        r@ == emoji_of(*signal),
{
    match signal {
        SignalStrength::StrongBuy => "\u{1F680}",
        SignalStrength::Buy => "\u{1F4C8}",
        SignalStrength::WeakBuy => "\u{2197}\u{FE0F}",
        SignalStrength::Neutral => "\u{27A1}\u{FE0F}",
        SignalStrength::WeakSell => "\u{2198}\u{FE0F}",
        SignalStrength::Sell => "\u{1F4C9}",
        SignalStrength::StrongSell => "\u{26A0}\u{FE0F}",
    }
}

pub open spec fn label_of(s: SignalStrength) -> Seq<char> {
    match s {
        SignalStrength::StrongBuy => "Strong Buy"@,
        SignalStrength::Buy => "Buy"@,
        SignalStrength::WeakBuy => "Weak Buy"@,
        SignalStrength::Neutral => "Neutral"@,
        SignalStrength::WeakSell => "Weak Sell"@,
        SignalStrength::Sell => "Sell"@,
        SignalStrength::StrongSell => "Strong Sell"@,
    }
}

/// The signal's display label ("Strong Buy", ...).
pub fn signal_label(signal: &SignalStrength) -> (r: &'static str)
    ensures
        r@ == label_of(*signal),
{
    match signal {
        SignalStrength::StrongBuy => "Strong Buy",
        SignalStrength::Buy => "Buy",
        SignalStrength::WeakBuy => "Weak Buy",
        SignalStrength::Neutral => "Neutral",
        SignalStrength::WeakSell => "Weak Sell",
        SignalStrength::Sell => "Sell",
        SignalStrength::StrongSell => "Strong Sell",
    }
}

pub open spec fn chart_color_of(s: SignalStrength) -> Seq<char> {
    match s {
        SignalStrength::StrongBuy | SignalStrength::Buy => "#00C853"@,
        SignalStrength::WeakBuy => "#26A69A"@,
        SignalStrength::Neutral => "#FFD600"@,
        SignalStrength::WeakSell => "#FF9100"@,
        SignalStrength::Sell | SignalStrength::StrongSell => "#FF1744"@,
    }
}

/// The color a chart uses for a signal.
pub fn signal_chart_color(signal: &SignalStrength) -> (r: &'static str)
    ensures
        r@ == chart_color_of(*signal),
{
    match signal {
        SignalStrength::StrongBuy | SignalStrength::Buy => "#00C853",
        SignalStrength::WeakBuy => "#26A69A",
        SignalStrength::Neutral => "#FFD600",
        SignalStrength::WeakSell => "#FF9100",
        SignalStrength::Sell | SignalStrength::StrongSell => "#FF1744",
    }
}

/// Every signal is buy-side, sell-side or neutral, and never both sides.
pub proof fn law_signal_sides(s: SignalStrength)
    ensures
        !(is_buy_side(s) && is_sell_side(s)),
        !is_buy_side(s) && !is_sell_side(s) <==> s == SignalStrength::Neutral,
{
}

/// Parsing a signal's own name gives that signal back, for each of the six
/// named signals, and any other text is neutral.
pub proof fn law_signal_names_parse_back(s: Seq<char>)
    ensures
        s == "StrongBuy"@ ==> signal_named(s) == SignalStrength::StrongBuy,
        s == "Buy"@ ==> signal_named(s) == SignalStrength::Buy,
        s == "WeakBuy"@ ==> signal_named(s) == SignalStrength::WeakBuy,
        s == "WeakSell"@ ==> signal_named(s) == SignalStrength::WeakSell,
        s == "Sell"@ ==> signal_named(s) == SignalStrength::Sell,
        s == "StrongSell"@ ==> signal_named(s) == SignalStrength::StrongSell,
        signal_named(s) == SignalStrength::Neutral <==> (s != "StrongBuy"@ && s != "Buy"@ && s
            != "WeakBuy"@ && s != "WeakSell"@ && s != "Sell"@ && s != "StrongSell"@),
{
    reveal_strlit("StrongBuy");
    reveal_strlit("Buy");
    reveal_strlit("WeakBuy");
    reveal_strlit("WeakSell");
    reveal_strlit("Sell");
    reveal_strlit("StrongSell");
    // The six names have six different lengths, so no two are equal.
    assert("StrongBuy"@.len() == 9);
    assert("Buy"@.len() == 3);
    assert("WeakBuy"@.len() == 7);
    assert("WeakSell"@.len() == 8);
    assert("Sell"@.len() == 4);
    assert("StrongSell"@.len() == 10);
}

/// The signals that show a one-word label parse back from it: "Buy" and
/// "Sell" name the signals they label.
pub proof fn law_single_word_labels_parse_back(sig: SignalStrength)
    requires
        sig == SignalStrength::Buy || sig == SignalStrength::Sell,
    ensures
        signal_named(label_of(sig)) == sig,
{
    law_signal_names_parse_back(label_of(sig));
}

} // verus!
