//! What a live session can be switched between — its mode, its model — as
//! the one shape the composer's menu draws.

use vstd::prelude::*;
use crate::text::{chars_of, push_str, same_text, string_of};

verus! {

/// Which request a switch is: `session/set_mode`, or a config option by id.
#[derive(Clone, Debug)]
pub enum SwitchId {
    Mode,
    Config(String),
}

/// One value a switch can be set to.
#[derive(Clone, Debug)]
pub struct SwitchOption {
    pub id: String,
    pub name: String,
}

/// One switchable thing the session offers.
#[derive(Clone, Debug)]
pub struct Switch {
    pub id: SwitchId,
    /// What it is called.
    pub name: String,
    /// The value it is on.
    pub current: Option<String>,
    pub options: Vec<SwitchOption>,
}

/// What a config option is about, where the agent says.
#[derive(Clone, Copy, PartialEq, Eq, Debug, Structural)]
pub enum Category {
    Mode,
    Model,
    Other,
}

/// One value of a select.
#[derive(Clone, Debug)]
pub struct SelectOption {
    pub value: String,
    pub name: String,
}

/// A select's values, on their own or under group headings.
#[derive(Clone, Debug)]
pub enum SelectOptions {
    Ungrouped(Vec<SelectOption>),
    Grouped(Vec<Vec<SelectOption>>),
}

/// What shape a config option takes.
#[derive(Clone, Debug)]
pub enum ConfigKind {
    Select { current: String, options: SelectOptions },
    /// Anything else, such as an on/off.
    Other,
}

/// One config option the agent offers.
#[derive(Clone, Debug)]
pub struct ConfigOption {
    pub id: String,
    pub name: String,
    pub category: Option<Category>,
    pub kind: ConfigKind,
}

/// A session mode.
#[derive(Clone, Debug)]
pub struct Mode {
    pub id: String,
    pub name: String,
}

/// The modes a session offers, and the one it is in.
#[derive(Clone, Debug)]
pub struct Modes {
    pub current: String,
    pub available: Vec<Mode>,
}

/// An option as values: its id and its name.
pub open spec fn pair(id: String, name: String) -> (Seq<char>, Seq<char>) {
    (id@, name@)
}

pub open spec fn flat_groups(groups: Seq<Vec<SelectOption>>) -> Seq<(Seq<char>, Seq<char>)>
    decreases groups.len(),
{
    if groups.len() == 0 {
        Seq::empty()
    } else {
        flat_groups(groups.drop_last()) + select_pairs(groups.last()@)
    }
}

/// A select's values, with a group's rows folded in beside the ungrouped
/// ones.
pub open spec fn flat_options(options: SelectOptions) -> Seq<(Seq<char>, Seq<char>)> {
    match options {
        SelectOptions::Ungrouped(v) => select_pairs(v@),
        SelectOptions::Grouped(g) => flat_groups(g@),
    }
}

/// Switch options as values: each one's id and name.
pub open spec fn option_pairs(values: Seq<SwitchOption>) -> Seq<(Seq<char>, Seq<char>)> {
    values.map_values(|o: SwitchOption| pair(o.id, o.name))
}

pub open spec fn select_pairs(values: Seq<SelectOption>) -> Seq<(Seq<char>, Seq<char>)> {
    values.map_values(|o: SelectOption| pair(o.value, o.name))
}

fn push_options(out: &mut Vec<SwitchOption>, from: &Vec<SelectOption>)
    ensures
        option_pairs(final(out)@) == option_pairs(old(out)@) + select_pairs(from@),
{
    let ghost start = old(out)@;
    let mut i: usize = 0;
    while i < from.len()
        invariant
            i <= from.len(),
            out@.len() == start.len() + i,
            forall|j: int| 0 <= j < start.len() ==> #[trigger] out@[j] == start[j],
            forall|j: int|
                0 <= j < i ==> (#[trigger] out@[start.len() + j]).id@ == from@[j].value@ && out@[start.len()
                    + j].name@ == from@[j].name@,
        decreases from.len() - i,
    {
        out.push(SwitchOption { id: from[i].value.clone(), name: from[i].name.clone() });
        i += 1;
    }
    assert(option_pairs(out@) =~= option_pairs(start) + select_pairs(from@)) by {
        assert forall|j: int| 0 <= j < out@.len() implies #[trigger] option_pairs(out@)[j] == (
        option_pairs(start) + select_pairs(from@))[j] by {
            if j < start.len() {
                assert(out@[j] == start[j]);
            } else {
                assert(out@[start.len() + (j - start.len())].id@ == from@[j - start.len()].value@);
            }
        }
    }
}

/// A select's values as switch options, grouped ones folded in.
pub fn select_options(options: &SelectOptions) -> (out: Vec<SwitchOption>)
    ensures
        option_pairs(out@) == flat_options(*options),
{
    let mut out: Vec<SwitchOption> = Vec::new();
    match options {
        SelectOptions::Ungrouped(v) => {
            push_options(&mut out, v);
            assert(option_pairs(out@) =~= flat_options(*options));
        },
        SelectOptions::Grouped(groups) => {
            let mut g: usize = 0;
            while g < groups.len()
                invariant
                    g <= groups.len(),
                    option_pairs(out@) == flat_groups(groups@.take(g as int)),
                decreases groups.len() - g,
            {
                push_options(&mut out, &groups[g]);
                assert(groups@.take(g + 1).drop_last() =~= groups@.take(g as int));
                g += 1;
            }
            assert(groups@.take(groups.len() as int) =~= groups@);
        },
    }
    out
}

/// Whether every mode is among the values.
pub open spec fn all_modes_among(modes: Seq<Mode>, values: Seq<(Seq<char>, Seq<char>)>) -> bool {
    forall|m: int|
        0 <= m < modes.len() ==> exists|v: int|
            0 <= v < values.len() && #[trigger] values[v].0 == (#[trigger] modes[m]).id@
}

/// Whether one config option already offers the session's modes: it says it
/// is the mode, or it is a select holding every mode among its values.
pub open spec fn offers_modes(option: ConfigOption, modes: Seq<Mode>) -> bool {
    option.category == Some(Category::Mode) || match option.kind {
        ConfigKind::Select { options, .. } => all_modes_among(modes, flat_options(options)),
        ConfigKind::Other => false,
    }
}

/// Whether the agent already offers these modes as a config option — some
/// report them twice, and two switches onto one state are two ways to
/// disagree about it.
pub open spec fn covered_by(config: Seq<ConfigOption>, modes: Seq<Mode>) -> bool {
    exists|k: int| 0 <= k < config.len() && offers_modes(#[trigger] config[k], modes)
}

fn among(values: &Vec<SwitchOption>, id: &str) -> (found: bool)
    ensures
        found == exists|v: int| 0 <= v < values@.len() && (#[trigger] option_pairs(values@)[v]).0 == id@,
{
    let ghost vs = option_pairs(values@);
    let mut i: usize = 0;
    while i < values.len()
        invariant
            i <= values.len(),
            vs == option_pairs(values@),
            forall|v: int| 0 <= v < i ==> vs[v].0 != id@,
        decreases values.len() - i,
    {
        if same_text(values[i].id.as_str(), id) {
            assert(vs[i as int].0 == id@);
            return true;
        }
        i += 1;
    }
    false
}

/// Whether the agent already offers `modes` among its config options.
pub fn covered_by_config(config: &Vec<ConfigOption>, modes: &Modes) -> (b: bool)
    ensures
        b == covered_by(config@, modes.available@),
{
    let mut k: usize = 0;
    while k < config.len()
        invariant
            k <= config.len(),
            forall|j: int| 0 <= j < k ==> !offers_modes(#[trigger] config@[j], modes.available@),
        decreases config.len() - k,
    {
        let option = &config[k];
        let is_mode = match option.category {
            Some(Category::Mode) => true,
            _ => false,
        };
        if is_mode {
            assert(offers_modes(config@[k as int], modes.available@));
            return true;
        }
        if let ConfigKind::Select { options, .. } = &option.kind {
            let values = select_options(options);
            let ghost vs = option_pairs(values@);
            let mut all = true;
            let mut m: usize = 0;
            while m < modes.available.len()
                invariant
                    m <= modes.available.len(),
                    vs == option_pairs(values@),
                    vs.len() == values@.len(),
                    all == all_modes_among(modes.available@.take(m as int), vs),
                decreases modes.available.len() - m,
            {
                let found = among(&values, modes.available[m].id.as_str());
                proof {
                    let before = modes.available@.take(m as int);
                    let after = modes.available@.take(m + 1);
                    if found {
                        let v = choose|v: int|
                            0 <= v < values@.len() && (#[trigger] option_pairs(values@)[v]).0
                                == modes.available@[m as int].id@;
                        assert(vs[v].0 == after[m as int].id@);
                    }
                    if all_modes_among(after, vs) {
                        assert forall|j: int| 0 <= j < before.len() implies exists|v: int|
                            0 <= v < vs.len() && #[trigger] vs[v].0 == (
                            #[trigger] before[j]).id@ by {
                            assert(before[j] == after[j]);
                        }
                        assert(after[m as int] == modes.available@[m as int]);
                    }
                    if all && found {
                        assert forall|j: int| 0 <= j < after.len() implies exists|v: int|
                            0 <= v < vs.len() && #[trigger] vs[v].0 == (
                            #[trigger] after[j]).id@ by {
                            if j < m {
                                assert(before[j] == after[j]);
                            } else {
                                let v = choose|v: int|
                                    0 <= v < values@.len() && (
                                    #[trigger] option_pairs(values@)[v]).0
                                        == modes.available@[m as int].id@;
                                assert(vs[v].0 == after[j].id@);
                            }
                        }
                    }
                }
                if !found {
                    all = false;
                }
                m += 1;
            }
            assert(vs == flat_options(*options));
            assert(modes.available@.take(modes.available.len() as int) =~= modes.available@);
            if all {
                assert(all_modes_among(modes.available@, flat_options(*options)));
                assert(offers_modes(config@[k as int], modes.available@));
                return true;
            }
            assert(!all_modes_among(modes.available@, flat_options(*options)));
        }
        assert(!offers_modes(config@[k as int], modes.available@));
        k += 1;
    }
    false
}


/// A switch as values: whether it is the mode, the config option's id, its
/// name, the value it is on, and its options.
pub struct SwitchView {
    pub mode: bool,
    pub id: Seq<char>,
    pub name: Seq<char>,
    pub current: Option<Seq<char>>,
    pub options: Seq<(Seq<char>, Seq<char>)>,
}

pub open spec fn switch_view(s: Switch) -> SwitchView {
    SwitchView {
        mode: s.id is Mode,
        id: match s.id {
            SwitchId::Config(id) => id@,
            SwitchId::Mode => Seq::empty(),
        },
        name: s.name@,
        current: match s.current {
            Some(c) => Some(c@),
            None => None,
        },
        options: option_pairs(s.options@),
    }
}

/// The switch a config option makes, where it is a select with something
/// to select.
pub open spec fn config_switch(option: ConfigOption) -> Option<SwitchView> {
    match option.kind {
        ConfigKind::Select { current, options } => if flat_options(options).len() > 0 {
            Some(
                SwitchView {
                    mode: false,
                    id: option.id@,
                    name: option.name@,
                    current: Some(current@),
                    options: flat_options(options),
                },
            )
        } else {
            None
        },
        ConfigKind::Other => None,
    }
}

pub open spec fn config_switches(config: Seq<ConfigOption>) -> Seq<SwitchView>
    decreases config.len(),
{
    if config.len() == 0 {
        Seq::empty()
    } else {
        let rest = config_switches(config.drop_last());
        match config_switch(config.last()) {
            Some(v) => rest.push(v),
            None => rest,
        }
    }
}

pub open spec fn mode_pairs(modes: Seq<Mode>) -> Seq<(Seq<char>, Seq<char>)> {
    modes.map_values(|m: Mode| pair(m.id, m.name))
}

/// What a session can be switched between, flattened to the one shape the
/// composer draws: its config options that are selects with something to
/// select, then its modes — unless it has none, or a config option already
/// offers them.
pub open spec fn switches_of(config: Seq<ConfigOption>, modes: Option<Modes>) -> Seq<SwitchView> {
    let from_config = config_switches(config);
    match modes {
        Some(m) => if m.available@.len() > 0 && !covered_by(config, m.available@) {
            from_config.push(
                SwitchView {
                    mode: true,
                    id: Seq::empty(),
                    name: "Mode"@,
                    current: Some(m.current@),
                    options: mode_pairs(m.available@),
                },
            )
        } else {
            from_config
        },
        None => from_config,
    }
}

/// What the live session can be switched between: its config options, then
/// its modes, as the composer's menu draws them.
pub fn switches(config: &Vec<ConfigOption>, modes: &Option<Modes>) -> (out: Vec<Switch>)
    ensures
        out@.map_values(|s: Switch| switch_view(s)) == switches_of(config@, *modes),
{
    let mut out: Vec<Switch> = Vec::new();
    let mut k: usize = 0;
    while k < config.len()
        invariant
            k <= config.len(),
            out@.map_values(|s: Switch| switch_view(s)) == config_switches(config@.take(k as int)),
        decreases config.len() - k,
    {
        let option = &config[k];
        assert(config@.take(k + 1).drop_last() =~= config@.take(k as int));
        assert(config@.take(k + 1).last() == config@[k as int]);
        if let ConfigKind::Select { current, options } = &option.kind {
            let values = select_options(options);
            if values.len() > 0 {
                let ghost before = out@;
                out.push(
                    Switch {
                        id: SwitchId::Config(option.id.clone()),
                        name: option.name.clone(),
                        current: Some(current.clone()),
                        options: values,
                    },
                );
                assert(out@.map_values(|s: Switch| switch_view(s)) =~= before.map_values(
                    |s: Switch| switch_view(s),
                ).push(switch_view(out@.last())));
            }
        }
        k += 1;
    }
    assert(config@.take(config.len() as int) =~= config@);
    if let Some(m) = modes {
        if m.available.len() > 0 && !covered_by_config(config, m) {
            let mut options: Vec<SwitchOption> = Vec::new();
            let mut i: usize = 0;
            while i < m.available.len()
                invariant
                    i <= m.available.len(),
                    options@.len() == i,
                    forall|j: int|
                        0 <= j < i ==> (#[trigger] options@[j]).id@ == m.available@[j].id@
                            && options@[j].name@ == m.available@[j].name@,
                decreases m.available.len() - i,
            {
                options.push(
                    SwitchOption { id: m.available[i].id.clone(), name: m.available[i].name.clone() },
                );
                i += 1;
            }
            assert(option_pairs(options@) =~= mode_pairs(m.available@));
            assert(m.available@.take(m.available.len() as int) =~= m.available@);
            let ghost before = out@;
            out.push(
                Switch {
                    id: SwitchId::Mode,
                    name: "Mode".to_owned(),
                    current: Some(m.current.clone()),
                    options,
                },
            );
            assert(out@.map_values(|s: Switch| switch_view(s)) =~= before.map_values(
                |s: Switch| switch_view(s),
            ).push(switch_view(out@.last())));
        }
    }
    out
}

/// The name of the first of `options` whose id is `id`.
pub open spec fn first_named(options: Seq<SwitchOption>, id: Seq<char>) -> Option<Seq<char>>
    decreases options.len(),
{
    if options.len() == 0 {
        None
    } else if options[0].id@ == id {
        Some(options[0].name@)
    } else {
        first_named(options.drop_first(), id)
    }
}

/// The name of the value a switch is on, where it is on one still offered.
pub open spec fn value_name(switch: Switch) -> Option<Seq<char>> {
    match switch.current {
        Some(c) => first_named(switch.options@, c@),
        None => None,
    }
}

proof fn lemma_first_named_at(options: Seq<SwitchOption>, id: Seq<char>, k: int)
    requires
        0 <= k < options.len(),
        options[k].id@ == id,
        forall|j: int| 0 <= j < k ==> (#[trigger] options[j]).id@ != id,
    ensures
        first_named(options, id) == Some(options[k].name@),
    decreases k,
{
    if k > 0 {
        let rest = options.drop_first();
        assert forall|j: int| 0 <= j < k - 1 implies (#[trigger] rest[j]).id@ != id by {
            assert(rest[j] == options[j + 1]);
        }
        lemma_first_named_at(rest, id, k - 1);
    }
}

proof fn lemma_first_named_none(options: Seq<SwitchOption>, id: Seq<char>)
    requires
        forall|j: int| 0 <= j < options.len() ==> (#[trigger] options[j]).id@ != id,
    ensures
        first_named(options, id) is None,
    decreases options.len(),
{
    if options.len() > 0 {
        let rest = options.drop_first();
        assert forall|j: int| 0 <= j < rest.len() implies (#[trigger] rest[j]).id@ != id by {
            assert(rest[j] == options[j + 1]);
        }
        lemma_first_named_none(rest, id);
    }
}

/// The name of the value a switch is on, where it is on one still offered.
pub fn value_of(switch: &Switch) -> (name: Option<String>)
    ensures
        (match name {
            Some(n) => Some(n@),
            None => None,
        }) == value_name(*switch),
        (match switch.current {
            None => name is None,
            Some(c) => match name {
                Some(n) => exists|k: int|
                    0 <= k < switch.options@.len() && switch.options@[k].id@ == c@
                        && switch.options@[k].name@ == n@ && forall|j: int|
                        0 <= j < k ==> (#[trigger] switch.options@[j]).id@ != c@,
                None => forall|j: int|
                    0 <= j < switch.options@.len() ==> (#[trigger] switch.options@[j]).id@ != c@,
            },
        }),
{
    let current = match &switch.current {
        Some(c) => c,
        None => return None,
    };
    let mut k: usize = 0;
    while k < switch.options.len()
        invariant
            k <= switch.options.len(),
            switch.current == Some(*current),
            forall|j: int| 0 <= j < k ==> (#[trigger] switch.options@[j]).id@ != current@,
        decreases switch.options.len() - k,
    {
        if same_text(switch.options[k].id.as_str(), current.as_str()) {
            proof {
                lemma_first_named_at(switch.options@, current@, k as int);
            }
            return Some(switch.options[k].name.clone());
        }
        k += 1;
    }
    proof {
        lemma_first_named_none(switch.options@, current@);
    }
    None
}

/// A switchable row's name with the value it is on: `Model: Opus`.
pub open spec fn set_to_text(name: Seq<char>, value: Option<Seq<char>>) -> Seq<char> {
    match value {
        Some(v) => name + ": "@ + v,
        None => name,
    }
}

/// A switchable row's name with the value it is on, since a submenu row has
/// one line to say both on.
pub fn set_to(name: &str, value: Option<String>) -> (s: String)
    ensures
        s@ == set_to_text(name@, match value {
            Some(v) => Some(v@),
            None => None,
        }),
{
    let mut out = chars_of(name);
    if let Some(v) = value {
        push_str(&mut out, ": ");
        push_str(&mut out, v.as_str());
    }
    string_of(&out)
}

/// The most options a switch drops as a submenu; a longer list opens as a
/// list of its own.
pub const SUBMENU_ROWS: usize = 12;

/// Whether a switch's options drop as a submenu of the agent menu rather
/// than opening as a list of their own.
pub fn as_submenu(switch: &Switch) -> (b: bool)
    ensures
        b == (switch.options@.len() <= SUBMENU_ROWS),
{
    switch.options.len() <= SUBMENU_ROWS
}

/// A switch's request as a value: nothing for the mode, else the config
/// option's id.
pub open spec fn id_view(id: SwitchId) -> Option<Seq<char>> {
    match id {
        SwitchId::Mode => None,
        SwitchId::Config(c) => Some(c@),
    }
}

/// The request a switch stands for, as a value of its own.
pub fn id_of(switch: &Switch) -> (id: SwitchId)
    ensures
        id_view(id) == id_view(switch.id),
{
    match &switch.id {
        SwitchId::Mode => SwitchId::Mode,
        SwitchId::Config(c) => SwitchId::Config(c.clone()),
    }
}

/// Where the value a switch is on stands among its options, to scroll a list
/// of them to.
pub fn current_position(switch: &Switch) -> (at: Option<usize>)
    ensures
        at matches Some(k) ==> k < switch.options@.len() && (switch.current matches Some(c)
            && switch.options@[k as int].id@ == c@) && forall|j: int|
            0 <= j < k ==> (#[trigger] switch.options@[j]).id@ != switch.current->0@,
        at is None ==> (switch.current is None || forall|j: int|
            0 <= j < switch.options@.len() ==> (#[trigger] switch.options@[j]).id@
                != switch.current->0@),
{
    let current = match &switch.current {
        Some(c) => c,
        None => return None,
    };
    let mut k: usize = 0;
    while k < switch.options.len()
        invariant
            k <= switch.options.len(),
            switch.current == Some(*current),
            forall|j: int| 0 <= j < k ==> (#[trigger] switch.options@[j]).id@ != current@,
        decreases switch.options.len() - k,
    {
        if same_text(switch.options[k].id.as_str(), current.as_str()) {
            return Some(k);
        }
        k += 1;
    }
    None
}

} // verus!
