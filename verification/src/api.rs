//! The records the application passes in and the errors it is answered.

use vstd::prelude::*;
use crate::models::{Provider, ProviderType};
use crate::text::str_eq;

verus! {

/// Errors of the application's operations.
#[derive(Debug)]
pub enum CoreError {
    Storage(String),
    Parse(String),
    Network(String),
    NotFound,
}

/// A provider as the user enters it; `provider_type` is `xtream` or `m3u`.
#[derive(Debug, Clone)]
pub struct ProviderInput {
    pub name: String,
    pub provider_type: String,
    pub url: String,
    pub username: Option<String>,
    pub password: Option<String>,
}

/// How a channel list is filtered, as the application asks for it.
#[derive(Debug, Clone)]
pub struct FilterOptions {
    pub preset_id: Option<i64>,
    pub search_query: Option<String>,
    pub show_hidden: bool,
}

impl From<FilterOptions> for crate::models::FilterOptions {
    fn from(f: FilterOptions) -> (r: Self) {
        crate::models::FilterOptions {
            preset_id: f.preset_id,
            search_query: f.search_query,
            show_hidden: f.show_hidden,
        }
    }
}

impl vstd::std_specs::convert::FromSpecImpl<FilterOptions> for crate::models::FilterOptions {
    open spec fn obeys_from_spec() -> bool {
        true
    }

    open spec fn from_spec(f: FilterOptions) -> Self {
        crate::models::FilterOptions {
            preset_id: f.preset_id,
            search_query: f.search_query,
            show_hidden: f.show_hidden,
        }
    }
}

/// The provider type a typed-in name denotes: `xtream` is an Xtream Codes
/// panel, anything else a playlist.
pub open spec fn provider_type_of(name: Seq<char>) -> ProviderType {
    if name == "xtream"@ {
        ProviderType::XtreamCodes
    } else {
        ProviderType::M3U
    }
}

/// The provider to store for an entered provider: not stored yet (no id), the
/// type read from its name, the other fields as entered.
pub fn provider_from_input(input: ProviderInput) -> (p: Provider)
    ensures
        p.id is None,
        p.name == input.name,
        p.provider_type == provider_type_of(input.provider_type@),
        p.url == input.url,
        p.username == input.username,
        p.password == input.password,
{
    let provider_type = if str_eq(input.provider_type.as_str(), "xtream") {
        ProviderType::XtreamCodes
    } else {
        ProviderType::M3U
    };
    Provider {
        id: None,
        name: input.name,
        provider_type,
        url: input.url,
        username: input.username,
        password: input.password,
    }
}

} // verus!
