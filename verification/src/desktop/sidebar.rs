//! The settings sidebar's rules, apart from drawing: provider keys typed
//! by hand, the agents created there, the theme colours, and the voice
//! tab's texts.

use vstd::prelude::*;
use crate::agent_personality::AiGender;
use crate::desktop::chat::DesktopProvider;
use vstd::pervasive::VecAdditionalExecFns;
use crate::text::{owned, push_str, str_eq};

verus! {

/// An agent listed in the sidebar: its name, whether it runs, its kind of
/// model and its gender.
pub struct AgentEntry {
    pub name: String,
    pub active: bool,
    pub agent_type: String,
    pub gender: AiGender,
}

/// An agent entry as plain values.
pub struct AgentEntryView {
    pub name: Seq<char>,
    pub active: bool,
    pub agent_type: Seq<char>,
    pub gender: AiGender,
}

/// The plain values of an agent entry.
pub open spec fn agent_view(a: AgentEntry) -> AgentEntryView {
    AgentEntryView { name: a.name@, active: a.active, agent_type: a.agent_type@, gender: a.gender }
}

/// The kinds of model an agent can be created with, in the order the
/// sidebar offers them.
pub open spec fn agent_type_names() -> Seq<Seq<char>> {
    seq!["LLM"@, "JEPA"@, "SNN"@, "SSM"@, "Audio"@, "Vision"@]
}

/// The genders an agent can be created with, in the order the sidebar
/// offers them.
pub open spec fn gender_choices() -> Seq<AiGender> {
    seq![AiGender::Male, AiGender::Female, AiGender::Androgynous, AiGender::Neutral]
}

fn agent_type_name(i: usize) -> (r: &'static str)
    requires
        i < 6,
    ensures
        r@ == agent_type_names()[i as int],
{
    if i == 0 {
        "LLM"
    } else if i == 1 {
        "JEPA"
    } else if i == 2 {
        "SNN"
    } else if i == 3 {
        "SSM"
    } else if i == 4 {
        "Audio"
    } else {
        "Vision"
    }
}

fn gender_choice(i: usize) -> (r: AiGender)
    requires
        i < 4,
    ensures
        r == gender_choices()[i as int],
{
    if i == 0 {
        AiGender::Male
    } else if i == 1 {
        AiGender::Female
    } else if i == 2 {
        AiGender::Androgynous
    } else {
        AiGender::Neutral
    }
}

fn entry(name: &str, agent_type: &str) -> (r: AgentEntry)
    ensures
        agent_view(r) == (AgentEntryView { name: name@, active: false, agent_type: agent_type@, gender: AiGender::Neutral }),
{
    AgentEntry { name: owned(name), active: false, agent_type: owned(agent_type), gender: AiGender::Neutral }
}

/// The agents the sidebar starts with: trader (LLM), analyst (JEPA), voice
/// (SSM) and monitor (SNN), all neutral and stopped.
pub fn default_agents() -> (r: Vec<AgentEntry>)
    ensures
        r@.map_values(|a: AgentEntry| agent_view(a)) == seq![
            AgentEntryView { name: "trader"@, active: false, agent_type: "LLM"@, gender: AiGender::Neutral },
            AgentEntryView { name: "analyst"@, active: false, agent_type: "JEPA"@, gender: AiGender::Neutral },
            AgentEntryView { name: "voice"@, active: false, agent_type: "SSM"@, gender: AiGender::Neutral },
            AgentEntryView { name: "monitor"@, active: false, agent_type: "SNN"@, gender: AiGender::Neutral },
        ],
{
    let mut r: Vec<AgentEntry> = Vec::new();
    r.push(entry("trader", "LLM"));
    r.push(entry("analyst", "JEPA"));
    r.push(entry("voice", "SSM"));
    r.push(entry("monitor", "SNN"));
    assert(r@.map_values(|a: AgentEntry| agent_view(a)) =~= seq![
        AgentEntryView { name: "trader"@, active: false, agent_type: "LLM"@, gender: AiGender::Neutral },
        AgentEntryView { name: "analyst"@, active: false, agent_type: "JEPA"@, gender: AiGender::Neutral },
        AgentEntryView { name: "voice"@, active: false, agent_type: "SSM"@, gender: AiGender::Neutral },
        AgentEntryView { name: "monitor"@, active: false, agent_type: "SNN"@, gender: AiGender::Neutral },
    ]);
    r
}

/// Creates an agent from the sidebar's form: with a name typed, a stopped
/// agent of the chosen kind and gender is added and the name field is
/// cleared; with no name, nothing happens.
pub fn create_agent(agents: &mut Vec<AgentEntry>, name: &mut String, type_index: usize, gender_index: usize)
    requires
        type_index < 6,
        gender_index < 4,
    ensures
        old(name)@.len() == 0 ==> final(agents)@ == old(agents)@ && final(name)@ == old(name)@,
        old(name)@.len() > 0 ==> {
            &&& final(agents)@.len() == old(agents)@.len() + 1
            &&& final(agents)@.take(old(agents)@.len() as int) == old(agents)@
            &&& agent_view(final(agents)@.last()) == (AgentEntryView {
                name: old(name)@,
                active: false,
                agent_type: agent_type_names()[type_index as int],
                gender: gender_choices()[gender_index as int],
            })
            &&& final(name)@.len() == 0
        },
{
    if name.as_str().is_empty() {
        return;
    }
    let a = AgentEntry {
        name: owned(name.as_str()),
        active: false,
        agent_type: owned(agent_type_name(type_index)),
        gender: gender_choice(gender_index),
    };
    agents.push(a);
    *name = String::new();
    assert(agents@.take(old(agents)@.len() as int) =~= old(agents)@);
}

/// The primary colour of theme `theme`: Dark Blue, Dark Purple, Dark Green,
/// Dark Red and AMOLED in turn, Dark Blue's for any other number.
pub fn theme_color(theme: usize) -> (r: &'static str)
    ensures
        r@ == if theme == 1 {
            "#BB86FC"@
        } else if theme == 2 {
            "#00E676"@
        } else if theme == 3 {
            "#FF5252"@
        } else if theme == 4 {
            "#FFFFFF"@
        } else {
            "#00DCFF"@
        },
{
    if theme == 1 {
        "#BB86FC"
    } else if theme == 2 {
        "#00E676"
    } else if theme == 3 {
        "#FF5252"
    } else if theme == 4 {
        "#FFFFFF"
    } else {
        "#00DCFF"
    }
}

/// How the assistant addresses the user: `ma'am` when the user's gender is
/// `female`, `sir` otherwise.
pub fn address_for(user_gender: &str) -> (r: &'static str)
    ensures
        r@ == if user_gender@ == "female"@ { "ma'am"@ } else { "sir"@ },
{
    if str_eq(user_gender, "female") {
        "ma'am"
    } else {
        "sir"
    }
}

/// The voice tab's account of speech synthesis: local engines first, then
/// the Fish Audio API, else still looking.
pub fn tts_status(local_detected: bool, fish_detected: bool) -> (r: &'static str)
    ensures
        r@ == if local_detected {
            "🗣️ Local (Piper/espeak) detected"@
        } else if fish_detected {
            "☁️ Fish API configured"@
        } else {
            "🔍 Auto-detecting..."@
        },
{
    if local_detected {
        "🗣️ Local (Piper/espeak) detected"
    } else if fish_detected {
        "☁️ Fish API configured"
    } else {
        "🔍 Auto-detecting..."
    }
}

/// Saving a typed key marks the provider configured when the key is not
/// empty; nothing else changes.
pub fn save_provider_key(p: &mut DesktopProvider)
    ensures
        final(p).name == old(p).name,
        final(p).key == old(p).key,
        final(p).configured == (old(p).configured || old(p).key@.len() > 0),
{
    if !p.key.as_str().is_empty() {
        p.configured = true;
    }
}

/// Removing a provider's key forgets it and marks the provider not
/// configured.
pub fn remove_provider_key(p: &mut DesktopProvider)
    ensures
        final(p).name == old(p).name,
        final(p).key@.len() == 0,
        !final(p).configured,
{
    p.configured = false;
    p.key = String::new();
}

/// Whether a provider called `name` is configured.
pub fn provider_ready(providers: &Vec<DesktopProvider>, name: &str) -> (r: bool)
    ensures
        r == exists|i: int| 0 <= i < providers@.len() && (#[trigger] providers@[i]).name@ == name@ && providers@[i].configured,
{
    let mut i: usize = 0;
    while i < providers.len()
        invariant
            i <= providers@.len(),
            forall|j: int| 0 <= j < i ==> !((#[trigger] providers@[j]).name@ == name@ && providers@[j].configured),
        decreases providers.len() - i,
    {
        if providers[i].configured && str_eq(providers[i].name.as_str(), name) {
            return true;
        }
        i = i + 1;
    }
    false
}

/// Starts or stops agent `i`; nothing else changes.
pub fn toggle_agent(agents: &mut Vec<AgentEntry>, i: usize)
    requires
        i < old(agents)@.len(),
    ensures
        final(agents)@.len() == old(agents)@.len(),
        agent_view(final(agents)@[i as int]) == (AgentEntryView {
            active: !old(agents)@[i as int].active,
            ..agent_view(old(agents)@[i as int])
        }),
        forall|k: int| 0 <= k < old(agents)@.len() && k != i ==> #[trigger] final(agents)@[k] == old(agents)@[k],
{
    let mut a = AgentEntry { name: String::new(), active: false, agent_type: String::new(), gender: AiGender::Neutral };
    agents.set_and_swap(i, &mut a);
    a.active = !a.active;
    agents.set_and_swap(i, &mut a);
}

/// Deletes every agent.
pub fn delete_all_agents(agents: &mut Vec<AgentEntry>)
    ensures
        final(agents)@.len() == 0,
{
    agents.clear();
}

/// The status line once a model download is asked for: `Downloading
/// <model>...`, or nothing when no model is named.
pub fn download_status(model: &str) -> (r: Option<String>)
    ensures
        model@.len() == 0 ==> r is None,
        model@.len() > 0 ==> (r matches Some(m) && m@ == "Downloading "@ + model@ + "..."@),
{
    if model.is_empty() {
        return None;
    }
    let mut m = owned("Downloading ");
    push_str(&mut m, model);
    push_str(&mut m, "...");
    Some(m)
}

} // verus!
