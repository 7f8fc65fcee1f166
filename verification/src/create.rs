//! Creating the declaration of a new country.

use crate::color::color_of;
use crate::color::hash_hex_color;
use crate::color::xxh3_64_of;
use crate::types::CountryConfig;
use crate::types::CountryConfigView;
use vstd::prelude::*;
use vstd::string::StringExecFns;
use vstd::utf8::encode_utf8;

verus! {

/// What can be created.
pub enum NewCommands {
    /// A country, with whatever metadata is known at the start.
    Country {
        id: String,
        name: Option<String>,
        description: Option<String>,
        foundation_date: Option<String>,
        flag: Option<String>,
        about: Option<String>,
        fill: Option<String>,
        stroke: Option<String>,
    },
}

/// A new country: its id and its first metadata.
pub struct NewCountry {
    pub id: String,
    pub config: CountryConfig,
}

/// The text, or the empty text where there is none.
pub open spec fn text_or_empty(value: Option<String>) -> Seq<char> {
    match value {
        Some(text) => text@,
        None => Seq::empty(),
    }
}

/// The color that was given, or else the one derived from the id and a
/// suffix.
pub open spec fn color_or_default(value: Option<String>, id: Seq<char>, suffix: Seq<char>) -> Seq<
    char,
> {
    match value {
        Some(color) => color@,
        None => color_of(xxh3_64_of(encode_utf8(id + suffix))),
    }
}

/// The metadata a new country starts with: what the command gives, the empty
/// text for what it leaves out, colors derived from the id where none are
/// given, and no tags.
pub open spec fn initial_config(command: NewCommands) -> CountryConfigView {
    match command {
        NewCommands::Country { id, name, description, foundation_date, flag, about, fill, stroke } => {
            CountryConfigView {
                name: text_or_empty(name),
                description: text_or_empty(description),
                foundation_date: text_or_empty(foundation_date),
                flag: text_or_empty(flag),
                fill: color_or_default(fill, id@, "_fill"@),
                stroke: color_or_default(stroke, id@, "_stroke"@),
                about: match about {
                    Some(text) => Some(text@),
                    None => None,
                },
                tags: None,
            }
        },
    }
}

/// The id a command names.
pub open spec fn command_id(command: NewCommands) -> Seq<char> {
    match command {
        NewCommands::Country { id, .. } => id@,
    }
}

fn or_empty(value: Option<String>) -> (text: String)
    ensures
        text@ == text_or_empty(value),
{
    match value {
        Some(text) => text,
        None => String::new(),
    }
}

fn or_default_color(value: Option<String>, id: &String, suffix: &str) -> (color: String)
    ensures
        color@ == color_or_default(value, id@, suffix@),
{
    match value {
        Some(color) => color,
        None => hash_hex_color(id.clone().concat(suffix)),
    }
}

/// Makes the declaration of a new country from a command.
pub fn new(cmd: NewCommands) -> (country: NewCountry)
    ensures
        country.id@ == command_id(cmd),
        country.config@ == initial_config(cmd),
{
    match cmd {
        NewCommands::Country { id, name, description, foundation_date, flag, about, fill, stroke } => {
            let fill = or_default_color(fill, &id, "_fill");
            let stroke = or_default_color(stroke, &id, "_stroke");
            let config = CountryConfig {
                name: or_empty(name),
                description: or_empty(description),
                foundation_date: or_empty(foundation_date),
                flag: or_empty(flag),
                fill,
                stroke,
                about,
                tags: None,
            };
            NewCountry { id, config }
        },
    }
}

} // verus!
