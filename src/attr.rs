use vstd::prelude::*;

verus! {

/// The eighteen named palette entries: eight standard colors, their bright
/// variants, and the default foreground and background.
#[derive(Clone, Copy, Debug, PartialEq, Eq, Structural)]
pub enum NamedColor {
    Black,
    Red,
    Green,
    Yellow,
    Blue,
    Magenta,
    Cyan,
    White,
    LightBlack,
    LightRed,
    LightGreen,
    LightYellow,
    LightBlue,
    LightMagenta,
    LightCyan,
    LightWhite,
    Foreground,
    Background,
}

/// A color a text attribute can carry.
#[derive(Clone, Copy, Debug, PartialEq, Eq, Structural)]
pub enum Color {
    Named(NamedColor),
}

/// A text attribute selected by Select Graphic Rendition.
#[derive(Clone, Copy, Debug, PartialEq, Eq, Structural)]
pub enum Attr {
    Reset,
    Bold,
    Dim,
    Italic,
    Underline,
    DoubleUnderline,
    Undercurl,
    DottedUnderline,
    DashedUnderline,
    BlinkSlow,
    BlinkFast,
    Reverse,
    Hidden,
    Strike,
    CancelBold,
    CancelBoldDim,
    CancelItalic,
    CancelUnderline,
    CancelBlink,
    CancelReverse,
    CancelHidden,
    CancelStrike,
    Foreground(Color),
    Background(Color),
    UnderlineColor(Option<Color>),
}

/// The standard color selected by the last digit of codes 30-37 and 40-47.
pub open spec fn standard_color(d: u16) -> NamedColor {
    match d {
        0 => NamedColor::Black,
        1 => NamedColor::Red,
        2 => NamedColor::Green,
        3 => NamedColor::Yellow,
        4 => NamedColor::Blue,
        5 => NamedColor::Magenta,
        6 => NamedColor::Cyan,
        _ => NamedColor::White,
    }
}

/// The bright color selected by the last digit of codes 90-97 and 100-107.
pub open spec fn bright_color(d: u16) -> NamedColor {
    match d {
        0 => NamedColor::LightBlack,
        1 => NamedColor::LightRed,
        2 => NamedColor::LightGreen,
        3 => NamedColor::LightYellow,
        4 => NamedColor::LightBlue,
        5 => NamedColor::LightMagenta,
        6 => NamedColor::LightCyan,
        _ => NamedColor::LightWhite,
    }
}

pub open spec fn fg(n: NamedColor) -> Option<Attr> {
    Some(Attr::Foreground(Color::Named(n)))
}

pub open spec fn bg(n: NamedColor) -> Option<Attr> {
    Some(Attr::Background(Color::Named(n)))
}

/// Meaning of a parameter group that holds a single code.
pub open spec fn single_code_attr(c: u16) -> Option<Attr> {
    if 30 <= c <= 37 {
        fg(standard_color((c - 30) as u16))
    } else if 40 <= c <= 47 {
        bg(standard_color((c - 40) as u16))
    } else if 90 <= c <= 97 {
        fg(bright_color((c - 90) as u16))
    } else if 100 <= c <= 107 {
        bg(bright_color((c - 100) as u16))
    } else {
        match c {
            0 => Some(Attr::Reset),
            1 => Some(Attr::Bold),
            2 => Some(Attr::Dim),
            3 => Some(Attr::Italic),
            4 => Some(Attr::Underline),
            5 => Some(Attr::BlinkSlow),
            6 => Some(Attr::BlinkFast),
            7 => Some(Attr::Reverse),
            8 => Some(Attr::Hidden),
            9 => Some(Attr::Strike),
            21 => Some(Attr::CancelBold),
            22 => Some(Attr::CancelBoldDim),
            23 => Some(Attr::CancelItalic),
            24 => Some(Attr::CancelUnderline),
            25 => Some(Attr::CancelBlink),
            27 => Some(Attr::CancelReverse),
            28 => Some(Attr::CancelHidden),
            29 => Some(Attr::CancelStrike),
            39 => fg(NamedColor::Foreground),
            49 => bg(NamedColor::Background),
            59 => Some(Attr::UnderlineColor(None)),
            _ => None,
        }
    }
}

/// Underline style chosen by the sub-parameter of code 4 (`4:n`).
pub open spec fn underline_style(sub: u16) -> Attr {
    match sub {
        0 => Attr::CancelUnderline,
        2 => Attr::DoubleUnderline,
        3 => Attr::Undercurl,
        4 => Attr::DottedUnderline,
        5 => Attr::DashedUnderline,
        _ => Attr::Underline,
    }
}

/// Meaning of one colon-separated parameter group; `None` for a group that
/// selects nothing this decoder knows.
pub open spec fn sgr_attr(g: Seq<u16>) -> Option<Attr> {
    if g.len() == 1 {
        single_code_attr(g[0])
    } else if g.len() == 2 && g[0] == 4 {
        Some(underline_style(g[1]))
    } else if g.len() > 2 && g[0] == 4 {
        Some(Attr::Underline)
    } else {
        None
    }
}

/// The decoding of a whole parameter list: one result per group, in order.
pub open spec fn sgr_attrs(groups: Seq<Seq<u16>>) -> Seq<Option<Attr>> {
    groups.map_values(|g: Seq<u16>| sgr_attr(g))
}

fn standard_color_of(d: u16) -> (r: NamedColor)
    ensures
        r == standard_color(d),
{
    match d {
        0 => NamedColor::Black,
        1 => NamedColor::Red,
        2 => NamedColor::Green,
        3 => NamedColor::Yellow,
        4 => NamedColor::Blue,
        5 => NamedColor::Magenta,
        6 => NamedColor::Cyan,
        _ => NamedColor::White,
    }
}

fn bright_color_of(d: u16) -> (r: NamedColor)
    ensures
        r == bright_color(d),
{
    match d {
        0 => NamedColor::LightBlack,
        1 => NamedColor::LightRed,
        2 => NamedColor::LightGreen,
        3 => NamedColor::LightYellow,
        4 => NamedColor::LightBlue,
        5 => NamedColor::LightMagenta,
        6 => NamedColor::LightCyan,
        _ => NamedColor::LightWhite,
    }
}

fn attr_from_code(c: u16) -> (r: Option<Attr>)
    ensures
        r == single_code_attr(c),
{
    if 30 <= c && c <= 37 {
        Some(Attr::Foreground(Color::Named(standard_color_of(c - 30))))
    } else if 40 <= c && c <= 47 {
        Some(Attr::Background(Color::Named(standard_color_of(c - 40))))
    } else if 90 <= c && c <= 97 {
        Some(Attr::Foreground(Color::Named(bright_color_of(c - 90))))
    } else if 100 <= c && c <= 107 {
        Some(Attr::Background(Color::Named(bright_color_of(c - 100))))
    } else {
        match c {
            0 => Some(Attr::Reset),
            1 => Some(Attr::Bold),
            2 => Some(Attr::Dim),
            3 => Some(Attr::Italic),
            4 => Some(Attr::Underline),
            5 => Some(Attr::BlinkSlow),
            6 => Some(Attr::BlinkFast),
            7 => Some(Attr::Reverse),
            8 => Some(Attr::Hidden),
            9 => Some(Attr::Strike),
            21 => Some(Attr::CancelBold),
            22 => Some(Attr::CancelBoldDim),
            23 => Some(Attr::CancelItalic),
            24 => Some(Attr::CancelUnderline),
            25 => Some(Attr::CancelBlink),
            27 => Some(Attr::CancelReverse),
            28 => Some(Attr::CancelHidden),
            29 => Some(Attr::CancelStrike),
            39 => Some(Attr::Foreground(Color::Named(NamedColor::Foreground))),
            49 => Some(Attr::Background(Color::Named(NamedColor::Background))),
            59 => Some(Attr::UnderlineColor(None)),
            _ => None,
        }
    }
}

/// Decodes one parameter group.
pub fn attr_from_sgr_group(g: &[u16]) -> (r: Option<Attr>)
    ensures
        r == sgr_attr(g@),
{
    if g.len() == 1 {
        attr_from_code(g[0])
    } else if g.len() >= 2 && g[0] == 4 {
        if g.len() > 2 {
            Some(Attr::Underline)
        } else {
            match g[1] {
                0 => Some(Attr::CancelUnderline),
                2 => Some(Attr::DoubleUnderline),
                3 => Some(Attr::Undercurl),
                4 => Some(Attr::DottedUnderline),
                5 => Some(Attr::DashedUnderline),
                _ => Some(Attr::Underline),
            }
        }
    } else {
        None
    }
}

/// Decodes every parameter group of an SGR sequence, one result per group;
/// an unknown group gives `None` and does not stop the rest.
pub fn attrs_from_sgr_parameters(params: &Vec<Vec<u16>>) -> (r: Vec<Option<Attr>>)
    ensures
        r@ == sgr_attrs(params@.map_values(|g: Vec<u16>| g@)),
{
    let ghost groups = params@.map_values(|g: Vec<u16>| g@);
    let mut attrs: Vec<Option<Attr>> = Vec::with_capacity(params.len());
    let mut i: usize = 0;
    while i < params.len()
        invariant
            i <= params.len(),
            groups == params@.map_values(|g: Vec<u16>| g@),
            attrs@ == sgr_attrs(groups.take(i as int)),
        decreases params.len() - i,
    {
        let a = attr_from_sgr_group(params[i].as_slice());
        attrs.push(a);
        proof {
            assert(groups.take(i as int + 1) == groups.take(i as int).push(groups[i as int]));
            assert(sgr_attrs(groups.take(i as int + 1)) =~= sgr_attrs(groups.take(i as int)).push(a));
        }
        i = i + 1;
    }
    proof {
        assert(groups.take(params.len() as int) == groups);
    }
    attrs
}

} // verus!
