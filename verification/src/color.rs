//! The embed highlight palette: an enumerated set of colors, each with a
//! kebab-case name (used in the configuration document and by the admin
//! `color` command) and a 24-bit value (used when rendering embeds).

use vstd::prelude::*;

verus! {

#[derive(Clone, Copy, Debug, PartialEq, Eq, Structural)]
pub enum Color {
    BlitzBlue,
    Blue,
    Blurple,
    DarkBlue,
    DarkGold,
    DarkGreen,
    DarkGrey,
    DarkMagenta,
    DarkOrange,
    DarkPurple,
    DarkRed,
    DarkTeal,
    DarkerGrey,
    FabledPink,
    FadedPurple,
    Fooyoo,
    Gold,
    Kerbal,
    LightGrey,
    LighterGrey,
    Magenta,
    MeibePink,
    Orange,
    Purple,
    Red,
    RohrkatzeBlue,
    Rosewater,
    Teal,
}

impl Default for Color {
    fn default() -> (r: Self)
        ensures
            r == Color::BlitzBlue,
    {
        Color::BlitzBlue
    }
}

/// The kebab-case name of a color, as it appears in the configuration
/// document and in admin commands.
pub open spec fn color_name(c: Color) -> Seq<char> {
    match c {
        Color::BlitzBlue => "blitz-blue"@,
        Color::Blue => "blue"@,
        Color::Blurple => "blurple"@,
        Color::DarkBlue => "dark-blue"@,
        Color::DarkGold => "dark-gold"@,
        Color::DarkGreen => "dark-green"@,
        Color::DarkGrey => "dark-grey"@,
        Color::DarkMagenta => "dark-magenta"@,
        Color::DarkOrange => "dark-orange"@,
        Color::DarkPurple => "dark-purple"@,
        Color::DarkRed => "dark-red"@,
        Color::DarkTeal => "dark-teal"@,
        Color::DarkerGrey => "darker-grey"@,
        Color::FabledPink => "fabled-pink"@,
        Color::FadedPurple => "faded-purple"@,
        Color::Fooyoo => "fooyoo"@,
        Color::Gold => "gold"@,
        Color::Kerbal => "kerbal"@,
        Color::LightGrey => "light-grey"@,
        Color::LighterGrey => "lighter-grey"@,
        Color::Magenta => "magenta"@,
        Color::MeibePink => "meibe-pink"@,
        Color::Orange => "orange"@,
        Color::Purple => "purple"@,
        Color::Red => "red"@,
        Color::RohrkatzeBlue => "rohrkatze-blue"@,
        Color::Rosewater => "rosewater"@,
        Color::Teal => "teal"@,
    }
}

/// Every color of the palette, in declaration order.
pub open spec fn all_colors() -> Seq<Color> {
    seq![
        Color::BlitzBlue,
        Color::Blue,
        Color::Blurple,
        Color::DarkBlue,
        Color::DarkGold,
        Color::DarkGreen,
        Color::DarkGrey,
        Color::DarkMagenta,
        Color::DarkOrange,
        Color::DarkPurple,
        Color::DarkRed,
        Color::DarkTeal,
        Color::DarkerGrey,
        Color::FabledPink,
        Color::FadedPurple,
        Color::Fooyoo,
        Color::Gold,
        Color::Kerbal,
        Color::LightGrey,
        Color::LighterGrey,
        Color::Magenta,
        Color::MeibePink,
        Color::Orange,
        Color::Purple,
        Color::Red,
        Color::RohrkatzeBlue,
        Color::Rosewater,
        Color::Teal,
    ]
}

impl Color {
    /// The kebab-case name of this color.
    pub fn as_str(&self) -> (r: &'static str)
        ensures
            r@ == color_name(*self),
    {
        match self {
            Color::BlitzBlue => "blitz-blue",
            Color::Blue => "blue",
            Color::Blurple => "blurple",
            Color::DarkBlue => "dark-blue",
            Color::DarkGold => "dark-gold",
            Color::DarkGreen => "dark-green",
            Color::DarkGrey => "dark-grey",
            Color::DarkMagenta => "dark-magenta",
            Color::DarkOrange => "dark-orange",
            Color::DarkPurple => "dark-purple",
            Color::DarkRed => "dark-red",
            Color::DarkTeal => "dark-teal",
            Color::DarkerGrey => "darker-grey",
            Color::FabledPink => "fabled-pink",
            Color::FadedPurple => "faded-purple",
            Color::Fooyoo => "fooyoo",
            Color::Gold => "gold",
            Color::Kerbal => "kerbal",
            Color::LightGrey => "light-grey",
            Color::LighterGrey => "lighter-grey",
            Color::Magenta => "magenta",
            Color::MeibePink => "meibe-pink",
            Color::Orange => "orange",
            Color::Purple => "purple",
            Color::Red => "red",
            Color::RohrkatzeBlue => "rohrkatze-blue",
            Color::Rosewater => "rosewater",
            Color::Teal => "teal",
        }
    }

    /// The 24-bit value of this color.
    pub fn value(&self) -> (r: u32)
        ensures
            r == color_value(*self),
    {
        match self {
            Color::BlitzBlue => 0x6FC6E2,
            Color::Blue => 0x3498DB,
            Color::Blurple => 0x7289DA,
            Color::DarkBlue => 0x206694,
            Color::DarkGold => 0xC27C0E,
            Color::DarkGreen => 0x1F8B4C,
            Color::DarkGrey => 0x607D8B,
            Color::DarkMagenta => 0xAD1457,
            Color::DarkOrange => 0xA84300,
            Color::DarkPurple => 0x71368A,
            Color::DarkRed => 0x992D22,
            Color::DarkTeal => 0x11806A,
            Color::DarkerGrey => 0x546E7A,
            Color::FabledPink => 0xFAB1ED,
            Color::FadedPurple => 0x8882C4,
            Color::Fooyoo => 0x11CA80,
            Color::Gold => 0xF1C40F,
            Color::Kerbal => 0xBADA55,
            Color::LightGrey => 0x979C9F,
            Color::LighterGrey => 0x95A5A6,
            Color::Magenta => 0xE91E63,
            Color::MeibePink => 0xE68397,
            Color::Orange => 0xE67E22,
            Color::Purple => 0x9B59B6,
            Color::Red => 0xE74C3C,
            Color::RohrkatzeBlue => 0x7596FF,
            Color::Rosewater => 0xF6DBD8,
            Color::Teal => 0x1ABC9C,
        }
    }

    /// Every color of the palette, in declaration order.
    pub fn all() -> (r: Vec<Color>)
        ensures
            r@ == all_colors(),
    {
        let r = vec![
            Color::BlitzBlue,
            Color::Blue,
            Color::Blurple,
            Color::DarkBlue,
            Color::DarkGold,
            Color::DarkGreen,
            Color::DarkGrey,
            Color::DarkMagenta,
            Color::DarkOrange,
            Color::DarkPurple,
            Color::DarkRed,
            Color::DarkTeal,
            Color::DarkerGrey,
            Color::FabledPink,
            Color::FadedPurple,
            Color::Fooyoo,
            Color::Gold,
            Color::Kerbal,
            Color::LightGrey,
            Color::LighterGrey,
            Color::Magenta,
            Color::MeibePink,
            Color::Orange,
            Color::Purple,
            Color::Red,
            Color::RohrkatzeBlue,
            Color::Rosewater,
            Color::Teal,
        ];
        assert(r@ =~= all_colors());
        r
    }

    /// Look a color up by its exact kebab-case name.
    pub fn from_name(name: &str) -> (r: Option<Color>)
        ensures
            r == color_from_name(name@),
    {
        let colors = Color::all();
        proof {
            assert(all_colors().subrange(0, all_colors().len() as int) =~= all_colors());
        }
        let mut i: usize = 0;
        while i < colors.len()
            invariant
                colors@ == all_colors(),
                i <= colors@.len(),
                color_from_name(name@) == find_color(
                    colors@.subrange(i as int, colors@.len() as int),
                    name@,
                ),
            decreases colors@.len() - i,
        {
            let ghost tail = colors@.subrange(i as int, colors@.len() as int);
            proof {
                assert(tail[0] == colors@[i as int]);
                assert(tail.drop_first() =~= colors@.subrange(i + 1, colors@.len() as int));
            }
            if crate::text::str_eq(name, colors[i].as_str()) {
                return Some(colors[i]);
            }
            i += 1;
        }
        proof {
            assert(colors@.subrange(colors@.len() as int, colors@.len() as int) =~= Seq::<
                Color,
            >::empty());
        }
        None
    }
}

/// The first listed color with the given name.
pub open spec fn find_color(cs: Seq<Color>, name: Seq<char>) -> Option<Color>
    decreases cs.len(),
{
    if cs.len() == 0 {
        None
    } else if color_name(cs[0]) == name {
        Some(cs[0])
    } else {
        find_color(cs.drop_first(), name)
    }
}

/// The palette color with the given name, if any.
pub open spec fn color_from_name(name: Seq<char>) -> Option<Color> {
    find_color(all_colors(), name)
}

proof fn lemma_find_color_sound(cs: Seq<Color>, name: Seq<char>)
    ensures
        find_color(cs, name) matches Some(c) ==> color_name(c) == name,
        find_color(cs, name) is None ==> forall|i: int|
            0 <= i < cs.len() ==> color_name(#[trigger] cs[i]) != name,
    decreases cs.len(),
{
    if cs.len() > 0 && color_name(cs[0]) != name {
        lemma_find_color_sound(cs.drop_first(), name);
        if find_color(cs, name) is None {
            assert forall|i: int| 0 <= i < cs.len() implies color_name(#[trigger] cs[i])
                != name by {
                if i > 0 {
                    assert(cs.drop_first()[i - 1] == cs[i]);
                }
            }
        }
    }
}

/// A name lookup that succeeds returns a color with that very name, and one
/// that fails means no palette color has the name.
pub proof fn lemma_color_from_name_sound(name: Seq<char>)
    ensures
        color_from_name(name) matches Some(c) ==> color_name(c) == name,
        color_from_name(name) is None ==> forall|c: Color| color_name(c) != name,
{
    lemma_find_color_sound(all_colors(), name);
    if color_from_name(name) is None {
        assert forall|c: Color| color_name(c) != name by {
            lemma_color_listed(c);
            let j = choose|j: int| 0 <= j < all_colors().len() && all_colors()[j] == c;
            assert(color_name(all_colors()[j]) != name);
        }
    }
}

/// The position of a color among the variants.
pub open spec fn color_tag(c: Color) -> int {
    match c {
        Color::BlitzBlue => 0,
        Color::Blue => 1,
        Color::Blurple => 2,
        Color::DarkBlue => 3,
        Color::DarkGold => 4,
        Color::DarkGreen => 5,
        Color::DarkGrey => 6,
        Color::DarkMagenta => 7,
        Color::DarkOrange => 8,
        Color::DarkPurple => 9,
        Color::DarkRed => 10,
        Color::DarkTeal => 11,
        Color::DarkerGrey => 12,
        Color::FabledPink => 13,
        Color::FadedPurple => 14,
        Color::Fooyoo => 15,
        Color::Gold => 16,
        Color::Kerbal => 17,
        Color::LightGrey => 18,
        Color::LighterGrey => 19,
        Color::Magenta => 20,
        Color::MeibePink => 21,
        Color::Orange => 22,
        Color::Purple => 23,
        Color::Red => 24,
        Color::RohrkatzeBlue => 25,
        Color::Rosewater => 26,
        Color::Teal => 27,
    }
}

/// The position of the color whose name this is, read off the name alone.
pub open spec fn color_untag(name: Seq<char>) -> int {
    if name == "blitz-blue"@ { 0 }
    else if name == "blue"@ { 1 }
    else if name == "blurple"@ { 2 }
    else if name == "dark-blue"@ { 3 }
    else if name == "dark-gold"@ { 4 }
    else if name == "dark-green"@ { 5 }
    else if name == "dark-grey"@ { 6 }
    else if name == "dark-magenta"@ { 7 }
    else if name == "dark-orange"@ { 8 }
    else if name == "dark-purple"@ { 9 }
    else if name == "dark-red"@ { 10 }
    else if name == "dark-teal"@ { 11 }
    else if name == "darker-grey"@ { 12 }
    else if name == "fabled-pink"@ { 13 }
    else if name == "faded-purple"@ { 14 }
    else if name == "fooyoo"@ { 15 }
    else if name == "gold"@ { 16 }
    else if name == "kerbal"@ { 17 }
    else if name == "light-grey"@ { 18 }
    else if name == "lighter-grey"@ { 19 }
    else if name == "magenta"@ { 20 }
    else if name == "meibe-pink"@ { 21 }
    else if name == "orange"@ { 22 }
    else if name == "purple"@ { 23 }
    else if name == "red"@ { 24 }
    else if name == "rohrkatze-blue"@ { 25 }
    else if name == "rosewater"@ { 26 }
    else if name == "teal"@ { 27 }
    else { -1 }
}

/// Different palette colors have different names.
pub proof fn lemma_color_names_distinct(a: Color, b: Color)
    requires
        a != b,
    ensures
        color_name(a) != color_name(b),
{
    lemma_color_untag(a);
    lemma_color_untag(b);
}

/// A color's name determines its position among the variants. The name
/// literals are revealed here, with one distinguishing character for each
/// pair of names of the same length.
#[verifier::rlimit(100)]
pub proof fn lemma_color_untag(c: Color)
    ensures
        color_untag(color_name(c)) == color_tag(c),
{
    reveal_strlit("blitz-blue");
    reveal_strlit("blue");
    reveal_strlit("blurple");
    reveal_strlit("dark-blue");
    reveal_strlit("dark-gold");
    reveal_strlit("dark-green");
    reveal_strlit("dark-grey");
    reveal_strlit("dark-magenta");
    reveal_strlit("dark-orange");
    reveal_strlit("dark-purple");
    reveal_strlit("dark-red");
    reveal_strlit("dark-teal");
    reveal_strlit("darker-grey");
    reveal_strlit("fabled-pink");
    reveal_strlit("faded-purple");
    reveal_strlit("fooyoo");
    reveal_strlit("gold");
    reveal_strlit("kerbal");
    reveal_strlit("light-grey");
    reveal_strlit("lighter-grey");
    reveal_strlit("magenta");
    reveal_strlit("meibe-pink");
    reveal_strlit("orange");
    reveal_strlit("purple");
    reveal_strlit("red");
    reveal_strlit("rohrkatze-blue");
    reveal_strlit("rosewater");
    reveal_strlit("teal");
    assert("blitz-blue"@.len() == 10);
    assert("blue"@.len() == 4);
    assert("blurple"@.len() == 7);
    assert("dark-blue"@.len() == 9);
    assert("dark-gold"@.len() == 9);
    assert("dark-green"@.len() == 10);
    assert("dark-grey"@.len() == 9);
    assert("dark-magenta"@.len() == 12);
    assert("dark-orange"@.len() == 11);
    assert("dark-purple"@.len() == 11);
    assert("dark-red"@.len() == 8);
    assert("dark-teal"@.len() == 9);
    assert("darker-grey"@.len() == 11);
    assert("fabled-pink"@.len() == 11);
    assert("faded-purple"@.len() == 12);
    assert("fooyoo"@.len() == 6);
    assert("gold"@.len() == 4);
    assert("kerbal"@.len() == 6);
    assert("light-grey"@.len() == 10);
    assert("lighter-grey"@.len() == 12);
    assert("magenta"@.len() == 7);
    assert("meibe-pink"@.len() == 10);
    assert("orange"@.len() == 6);
    assert("purple"@.len() == 6);
    assert("red"@.len() == 3);
    assert("rohrkatze-blue"@.len() == 14);
    assert("rosewater"@.len() == 9);
    assert("teal"@.len() == 4);
    // names of the same length are told apart by one character
    assert("blue"@[0] == 'b' && "gold"@[0] == 'g' && "teal"@[0] == 't');
    assert("fooyoo"@[0] == 'f' && "kerbal"@[0] == 'k' && "orange"@[0] == 'o' && "purple"@[0]
        == 'p');
    assert("blurple"@[0] == 'b' && "magenta"@[0] == 'm');
    assert("dark-blue"@[5] == 'b' && "dark-gold"@[5] == 'g' && "dark-grey"@[5] == 'g'
        && "dark-teal"@[5] == 't' && "rosewater"@[5] == 'a');
    assert("dark-gold"@[6] == 'o' && "dark-grey"@[6] == 'r');
    assert("rosewater"@[0] == 'r' && "dark-blue"@[0] == 'd');
    assert("blitz-blue"@[0] == 'b' && "dark-green"@[0] == 'd' && "light-grey"@[0] == 'l'
        && "meibe-pink"@[0] == 'm');
    assert("dark-orange"@[5] == 'o' && "dark-purple"@[5] == 'p' && "darker-grey"@[5] == 'r');
    assert("dark-orange"@[4] == '-' && "dark-purple"@[4] == '-' && "darker-grey"@[4] == 'e'
        && "fabled-pink"@[4] == 'e');
    assert("fabled-pink"@[0] == 'f' && "dark-orange"@[0] == 'd');
    assert("dark-magenta"@[0] == 'd' && "faded-purple"@[0] == 'f' && "lighter-grey"@[0] == 'l');
}

/// Looking up the name of a color finds that very color.
pub proof fn lemma_color_name_roundtrip(c: Color)
    ensures
        color_from_name(color_name(c)) == Some(c),
{
    let name = color_name(c);
    lemma_find_color_sound(all_colors(), name);
    lemma_color_listed(c);
    match color_from_name(name) {
        None => {
            let j = choose|j: int| 0 <= j < all_colors().len() && all_colors()[j] == c;
            assert(color_name(all_colors()[j]) != name);
        },
        Some(c2) => {
            if c2 != c {
                lemma_color_names_distinct(c2, c);
            }
        },
    }
}

/// The 24-bit value of a color.
pub open spec fn color_value(c: Color) -> u32 {
    match c {
        Color::BlitzBlue => 0x6FC6E2,
        Color::Blue => 0x3498DB,
        Color::Blurple => 0x7289DA,
        Color::DarkBlue => 0x206694,
        Color::DarkGold => 0xC27C0E,
        Color::DarkGreen => 0x1F8B4C,
        Color::DarkGrey => 0x607D8B,
        Color::DarkMagenta => 0xAD1457,
        Color::DarkOrange => 0xA84300,
        Color::DarkPurple => 0x71368A,
        Color::DarkRed => 0x992D22,
        Color::DarkTeal => 0x11806A,
        Color::DarkerGrey => 0x546E7A,
        Color::FabledPink => 0xFAB1ED,
        Color::FadedPurple => 0x8882C4,
        Color::Fooyoo => 0x11CA80,
        Color::Gold => 0xF1C40F,
        Color::Kerbal => 0xBADA55,
        Color::LightGrey => 0x979C9F,
        Color::LighterGrey => 0x95A5A6,
        Color::Magenta => 0xE91E63,
        Color::MeibePink => 0xE68397,
        Color::Orange => 0xE67E22,
        Color::Purple => 0x9B59B6,
        Color::Red => 0xE74C3C,
        Color::RohrkatzeBlue => 0x7596FF,
        Color::Rosewater => 0xF6DBD8,
        Color::Teal => 0x1ABC9C,
    }
}

/// Every color occurs in `all_colors`.
pub proof fn lemma_color_listed(c: Color)
    ensures
        exists|j: int| 0 <= j < all_colors().len() && all_colors()[j] == c,
{
    match c {
        Color::BlitzBlue => assert(all_colors()[0] == c),
        Color::Blue => assert(all_colors()[1] == c),
        Color::Blurple => assert(all_colors()[2] == c),
        Color::DarkBlue => assert(all_colors()[3] == c),
        Color::DarkGold => assert(all_colors()[4] == c),
        Color::DarkGreen => assert(all_colors()[5] == c),
        Color::DarkGrey => assert(all_colors()[6] == c),
        Color::DarkMagenta => assert(all_colors()[7] == c),
        Color::DarkOrange => assert(all_colors()[8] == c),
        Color::DarkPurple => assert(all_colors()[9] == c),
        Color::DarkRed => assert(all_colors()[10] == c),
        Color::DarkTeal => assert(all_colors()[11] == c),
        Color::DarkerGrey => assert(all_colors()[12] == c),
        Color::FabledPink => assert(all_colors()[13] == c),
        Color::FadedPurple => assert(all_colors()[14] == c),
        Color::Fooyoo => assert(all_colors()[15] == c),
        Color::Gold => assert(all_colors()[16] == c),
        Color::Kerbal => assert(all_colors()[17] == c),
        Color::LightGrey => assert(all_colors()[18] == c),
        Color::LighterGrey => assert(all_colors()[19] == c),
        Color::Magenta => assert(all_colors()[20] == c),
        Color::MeibePink => assert(all_colors()[21] == c),
        Color::Orange => assert(all_colors()[22] == c),
        Color::Purple => assert(all_colors()[23] == c),
        Color::Red => assert(all_colors()[24] == c),
        Color::RohrkatzeBlue => assert(all_colors()[25] == c),
        Color::Rosewater => assert(all_colors()[26] == c),
        Color::Teal => assert(all_colors()[27] == c),
    }
}

} // verus!


