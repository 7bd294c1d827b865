//! What the bridge asks of the process that hosts it.

use vstd::prelude::*;

verus! {

/// A variable of the process environment and the value it is to have.
#[derive(Clone, Debug, PartialEq, Eq)]
pub struct EnvSetting {
    pub name: String,
    pub value: String,
}

/// The settings as pairs of texts, in order.
pub open spec fn setting_views(settings: Seq<EnvSetting>) -> Seq<(Seq<char>, Seq<char>)> {
    settings.map_values(|s: EnvSetting| (s.name@, s.value@))
}

/// The settings that `main_prelude` asks for: on Linux WebKit's DMA-BUF
/// renderer is switched off, elsewhere nothing is set.
pub open spec fn prelude_settings(linux: bool) -> Seq<(Seq<char>, Seq<char>)> {
    if linux {
        seq![("WEBKIT_DISABLE_DMABUF_RENDERER"@, "1"@)]
    } else {
        Seq::empty()
    }
}

/// The environment settings that the host applies before anything else
/// starts.
pub fn main_prelude(linux: bool) -> (settings: Vec<EnvSetting>)
    ensures
        setting_views(settings@) == prelude_settings(linux),
{
    let mut settings: Vec<EnvSetting> = Vec::new();
    if linux {
        settings.push(
            EnvSetting { name: "WEBKIT_DISABLE_DMABUF_RENDERER".to_owned(), value: "1".to_owned() },
        );
    }
    assert(setting_views(settings@) =~= prelude_settings(linux));
    settings
}

} // verus!
