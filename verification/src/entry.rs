//! One entry of a listing: its name, its colour, and the styled text that is
//! printed for it.

use crate::color::{derived, RgbColor};
use crate::config::Config;
use crate::kind::{Classification, Kind, Timestamp};
use crate::text::{
    decimal, grapheme_count, optional_view, push_decimal, push_optional, text_or_empty,
};
use crate::utils::os_string_graphene_len;
use vstd::prelude::*;
use vstd::string::*;
use vstd::utf8::encode_utf8;

verus! {

/// The bytes from which the colour of an entry is derived: those of its
/// extension where it has one, else those of its whole name.
pub open spec fn color_key(name: Seq<char>, extension: Option<Seq<char>>) -> Seq<u8> {
    match extension {
        Some(ending) => encode_utf8(ending),
        None => encode_utf8(name),
    }
}

/// The escape sequence that sets the foreground to `color`.
pub open spec fn color_escape(color: RgbColor) -> Seq<char> {
    "\x1b[38;2;"@ + decimal(color.red as nat) + ";"@ + decimal(color.green as nat) + ";"@
        + decimal(color.blue as nat) + "m"@
}

/// The escape sequence of one style code.
pub open spec fn style_escape(code: u8) -> Seq<char> {
    "\x1b["@ + decimal(code as nat) + "m"@
}

/// The escape sequences of `codes`, one behind the other.
pub open spec fn style_escapes(codes: Seq<u8>) -> Seq<char>
    decreases codes.len(),
{
    if codes.len() == 0 {
        Seq::empty()
    } else {
        style_escapes(codes.drop_last()) + style_escape(codes.last())
    }
}

/// The escape sequence that ends all styling.
pub open spec fn reset_escape() -> Seq<char> {
    "\x1b[0;00m"@
}

/// A name with its decorations: the prefix, the name and the suffix as one
/// text.
pub open spec fn decorated(
    prefix: Option<Seq<char>>,
    name: Seq<char>,
    suffix: Option<Seq<char>>,
) -> Seq<char> {
    text_or_empty(prefix) + name + text_or_empty(suffix)
}

/// The text printed for an entry: the colour, the styles, the decorated name
/// and the reset, in this order.
pub open spec fn styled(
    color: RgbColor,
    codes: Seq<u8>,
    prefix: Option<Seq<char>>,
    name: Seq<char>,
    suffix: Option<Seq<char>>,
) -> Seq<char> {
    color_escape(color) + style_escapes(codes) + decorated(prefix, name, suffix) + reset_escape()
}

/// The display width of a decorated name: the number of grapheme clusters of
/// the prefix, the name and the suffix taken as one text, so that a cluster
/// that reaches from one into the next counts once.
pub open spec fn display_width(
    prefix: Option<Seq<char>>,
    name: Seq<char>,
    suffix: Option<Seq<char>>,
) -> nat {
    grapheme_count(decorated(prefix, name, suffix))
}

/// One entry of a listing. `len` is the display width of the decorated name,
/// in grapheme clusters; the escape sequences of `formatted_name` take no
/// room.
pub struct ColoredEntry {
    pub name: String,
    pub formatted_name: String,
    pub extension: Option<String>,
    pub colour: RgbColor,
    pub path: String,
    pub len: usize,
    pub kind: Kind,
    pub mode: Option<u32>,
    pub size_bytes: Option<usize>,
    pub created_at: Option<Timestamp>,
    pub modified_at: Option<Timestamp>,
    pub accessed_at: Option<Timestamp>,
}

impl ColoredEntry {
    /// The entry is the one that `config` makes of a name, an extension, a
    /// path and a classification: it keeps them, its colour is derived from
    /// the extension, or from the name where there is none, and brightened to
    /// the minimal sum, and its text and width are those of the name as its
    /// kind is styled and decorated.
    pub open spec fn made_from(
        self,
        name: Seq<char>,
        extension: Option<Seq<char>>,
        path: Seq<char>,
        classification: Classification,
        config: Config,
    ) -> bool {
        &&& self.name@ == name
        &&& optional_view(self.extension) == extension
        &&& self.path@ == path
        &&& self.colour == derived(config.color_seed, color_key(name, extension)).padded(
            config.minimal_rgb_sum as int,
        )
        &&& self.formatted_name@ == styled(
            self.colour,
            config.codes_of(classification.kind),
            config.prefix.of(classification.kind),
            name,
            config.suffix.of(classification.kind),
        )
        &&& self.len == display_width(
            config.prefix.of(classification.kind),
            name,
            config.suffix.of(classification.kind),
        )
        &&& self.kind == classification.kind
        &&& self.mode == classification.mode
        &&& self.size_bytes == classification.size_bytes
        &&& self.created_at == classification.created_at
        &&& self.modified_at == classification.modified_at
        &&& self.accessed_at == classification.accessed_at
    }

    /// The colour of an entry named `name` with extension `extension`, before
    /// it is brightened.
    pub fn make_colors(seed: usize, name: &str, extension: &Option<String>) -> (color: RgbColor)
        ensures
            color == derived(seed, color_key(name@, optional_view(*extension))),
            color.wf(),
    {
        match extension {
            Some(ending) => RgbColor::derive(seed, ending.as_str().as_bytes()),
            None => RgbColor::derive(seed, name.as_bytes()),
        }
    }

    /// The styled text of an entry of `kind` named `file_name`, and its
    /// display width.
    pub fn make_formatted_name(
        config: &Config,
        file_name: &str,
        kind: Kind,
        color: &RgbColor,
    ) -> (formatted: (String, usize))
        ensures
            formatted.0@ == styled(
                *color,
                config.codes_of(kind),
                config.prefix.of(kind),
                file_name@,
                config.suffix.of(kind),
            ),
            formatted.1 == display_width(
                config.prefix.of(kind),
                file_name@,
                config.suffix.of(kind),
            ),
    {
        let codes = config.codes_for(kind);
        let prefix = config.prefix.for_kind(kind);
        let suffix = config.suffix.for_kind(kind);

        let mut text = String::new();
        text.append("\x1b[38;2;");
        push_decimal(&mut text, color.red);
        text.append(";");
        push_decimal(&mut text, color.green);
        text.append(";");
        push_decimal(&mut text, color.blue);
        text.append("m");
        assert(text@ =~= color_escape(*color));

        let mut i: usize = 0;
        while i < codes.len()
            invariant
                i <= codes.len(),
                text@ == color_escape(*color) + style_escapes(codes@.take(i as int)),
            decreases codes.len() - i,
        {
            let ghost before = text@;
            text.append("\x1b[");
            push_decimal(&mut text, codes[i] as usize);
            text.append("m");
            proof {
                let next = codes@.take(i + 1);
                assert(next.drop_last() =~= codes@.take(i as int));
                assert(next.last() == codes@[i as int]);
                assert(text@ =~= before + style_escape(codes@[i as int]));
                assert(text@ =~= color_escape(*color) + style_escapes(next));
            }
            i = i + 1;
        }
        assert(codes@.take(i as int) =~= codes@);

        let mut name = String::new();
        push_optional(&mut name, prefix);
        name.append(file_name);
        push_optional(&mut name, suffix);
        assert(name@ =~= decorated(config.prefix.of(kind), file_name@, config.suffix.of(kind)));
        let width = os_string_graphene_len(name.as_str());

        text.append(name.as_str());
        text.append("\x1b[0;00m");
        (text, width)
    }

    /// The display width of the entry.
    pub fn len(&self) -> (width: usize)
        ensures
            width == self.len,
    {
        self.len
    }

    /// The entry named `file_name`, found at `path`, as `config` colours and
    /// styles it.
    ///
    /// The colour is derived from the extension, or from the name where there
    /// is none, and brightened to the minimal sum of `config`. Kind and
    /// metadata are those of `classification`.
    pub fn new(
        file_name: String,
        extension: Option<String>,
        path: String,
        classification: Classification,
        config: &Config,
    ) -> (entry: ColoredEntry)
        ensures
            entry.made_from(
                file_name@,
                optional_view(extension),
                path@,
                classification,
                *config,
            ),
            entry.colour.wf(),
    {
        let mut colour = Self::make_colors(config.color_seed, file_name.as_str(), &extension);
        colour.pad_lowest(config.minimal_rgb_sum);
        let (formatted_name, len) = Self::make_formatted_name(
            config,
            file_name.as_str(),
            classification.kind,
            &colour,
        );
        ColoredEntry {
            name: file_name,
            formatted_name,
            extension,
            colour,
            path,
            len,
            kind: classification.kind,
            mode: classification.mode,
            size_bytes: classification.size_bytes,
            created_at: classification.created_at,
            modified_at: classification.modified_at,
            accessed_at: classification.accessed_at,
        }
    }
}

/// The position of the last dot of `name` before position `below`, or -1
/// where there is none.
pub open spec fn last_dot(name: Seq<char>, below: int) -> int
    decreases below,
{
    if below <= 0 || below > name.len() {
        -1
    } else if name[below - 1] == '.' {
        below - 1
    } else {
        last_dot(name, below - 1)
    }
}

/// The extension of a file name: what stands behind its last dot. A name
/// without a dot has none, nor has a name whose only dot is its first
/// character, nor the name of the parent directory.
pub open spec fn extension_in(name: Seq<char>) -> Option<Seq<char>> {
    let at = last_dot(name, name.len() as int);
    if at <= 0 || name == seq!['.', '.'] {
        None
    } else {
        Some(name.subrange(at + 1, name.len() as int))
    }
}

/// The extension of a file name.
pub fn extension_of(name: &str) -> (extension: Option<String>)
    ensures
        optional_view(extension) == extension_in(name@),
{
    let length = name.unicode_len();
    let mut below: usize = length;
    while below > 0 && name.get_char(below - 1) != '.'
        invariant
            below <= length,
            length == name@.len(),
            last_dot(name@, length as int) == last_dot(name@, below as int),
        decreases below,
    {
        below = below - 1;
    }
    if below <= 1 {
        return None;
    }
    if length == 2 && name.get_char(0) == '.' {
        assert(name@ =~= seq!['.', '.']);
        return None;
    }
    assert(name@ != seq!['.', '.']) by {
        if name@ == seq!['.', '.'] {
            assert(name@.len() == 2);
            assert(name@[0] == '.');
        }
    }
    Some(String::from_str(name.substring_char(below, length)))
}

/// File names that share an extension get one colour under one seed,
/// whatever else they are made of.
pub proof fn lemma_shared_extension_shares_color(seed: usize, first: Seq<char>, second: Seq<char>)
    requires
        extension_in(first) is Some,
        extension_in(first) == extension_in(second),
    ensures
        derived(seed, color_key(first, extension_in(first))) == derived(
            seed,
            color_key(second, extension_in(second)),
        ),
{
}

} // verus!
