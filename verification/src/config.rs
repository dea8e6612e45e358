//! Configuration: the settings that the environment gives, and those that a file adds.

use crate::text::{
    begins, cut, lemma_contains, lemma_cut_first, lines, lines_of, occurs_at, same, split_once,
    starts_with, texts, trim, trimmed,
};
use vstd::prelude::*;
use vstd::string::*;

verus! {

/// How the model is reached.
pub struct Cfg {
    pub api_key: String,
    pub base_url: String,
    pub model: String,
}

/// Why there is no configuration.
#[derive(PartialEq, Eq, Structural, Clone, Copy, Debug)]
pub enum ConfigError {
    /// No key is set.
    MissingKey,
}

impl ConfigError {
    /// What the user is told.
    pub fn message(&self) -> (r: String)
        ensures
            r@ == "Set OPENROUTER_API_KEY"@,
    {
        "Set OPENROUTER_API_KEY".to_owned()
    }
}

impl Cfg {
    /// The configuration that the variables `OPENROUTER_API_KEY`, `INFERENCE_BASE_URL` and
    /// `MODEL_NAME` give. The first has no default, and that of the last is handed in.
    pub fn from_env(
        api_key: Option<String>,
        base_url: Option<String>,
        model: Option<String>,
        default_model: &str,
    ) -> (r: Result<Cfg, ConfigError>)
        ensures
            match r {
                Ok(cfg) => {
                    &&& api_key matches Some(key) && cfg.api_key@ == key@
                    &&& cfg.base_url@ == match base_url {
                        Some(url) => url@,
                        None => "https://openrouter.ai/api/v1"@,
                    }
                    &&& cfg.model@ == match model {
                        Some(name) => name@,
                        None => default_model@,
                    }
                },
                Err(e) => e == ConfigError::MissingKey && api_key is None,
            },
    {
        match api_key {
            None => Err(ConfigError::MissingKey),
            Some(api_key) => {
                let base_url = match base_url {
                    Some(url) => url,
                    None => "https://openrouter.ai/api/v1".to_owned(),
                };
                let model = match model {
                    Some(name) => name,
                    None => default_model.to_owned(),
                };
                Ok(Cfg { api_key, base_url, model })
            },
        }
    }
}

/// A variable, and the value that it is given.
pub struct Setting {
    pub name: String,
    pub value: String,
}

/// The view of a `Setting`.
pub struct SettingView {
    pub name: Seq<char>,
    pub value: Seq<char>,
}

impl View for Setting {
    type V = SettingView;

    open spec fn view(&self) -> SettingView {
        SettingView { name: self.name@, value: self.value@ }
    }
}

/// What the settings of a vector hold.
pub open spec fn settings_view(v: Seq<Setting>) -> Seq<SettingView> {
    Seq::new(v.len(), |i: int| v[i]@)
}

/// The setting that a line of the file makes: a name, an equals sign and a value. A line whose
/// name begins with a hash is a comment.
pub open spec fn setting(line: Seq<char>) -> Option<SettingView> {
    match cut(line, "="@) {
        Some((name, value)) => if begins(trimmed(name), "#"@) {
            None
        } else {
            Some(SettingView { name: trimmed(name), value: trimmed(value) })
        },
        None => None,
    }
}

/// The settings that lines of the file add to the names that are `known` already.
pub open spec fn added(ls: Seq<Seq<char>>, known: Seq<Seq<char>>) -> Seq<SettingView>
    decreases ls.len(),
{
    if ls.len() == 0 {
        seq![]
    } else {
        match setting(ls[0]) {
            Some(s) => if known.contains(s.name) {
                added(ls.skip(1), known)
            } else {
                seq![s] + added(ls.skip(1), known.push(s.name))
            },
            None => added(ls.skip(1), known),
        }
    }
}

/// Tells whether `name` is among `names`.
fn among(names: &Vec<String>, name: &str) -> (r: bool)
    ensures
        r == texts(names@).contains(name@),
{
    let mut i: usize = 0;
    while i < names.len()
        invariant
            i <= names.len(),
            forall|j: int| 0 <= j < i ==> texts(names@)[j] != name@,
        decreases names.len() - i,
    {
        assert(texts(names@)[i as int] == names@[i as int]@);
        if same(names[i].as_str(), name) {
            return true;
        }
        i = i + 1;
    }
    false
}

/// The setting that a line of the file makes.
fn read_setting(line: &str) -> (r: Option<Setting>)
    ensures
        match r {
            Some(s) => setting(line@) == Some(s@),
            None => setting(line@) is None,
        },
{
    match split_once(line, "=") {
        Some((name, value)) => {
            let name = trim(name);
            if starts_with(name, "#") {
                None
            } else {
                Some(Setting { name: name.to_owned(), value: trim(value).to_owned() })
            }
        },
        None => None,
    }
}

/// The settings that the file `content` adds to the names that are `present` already. What is
/// set already stays, and of two settings of one name the first counts.
pub fn dotenv_settings(content: &str, present: Vec<String>) -> (r: Vec<Setting>)
    ensures
        settings_view(r@) == added(lines(content@), texts(present@)),
{
    let all = lines_of(content);
    let ghost ls = lines(content@);
    let ghost first = texts(present@);
    let mut known = present;
    let mut r: Vec<Setting> = Vec::new();
    let mut i: usize = 0;
    assert(ls.skip(0) =~= ls);
    assert(settings_view(r@) + added(ls, first) =~= added(ls, first));
    while i < all.len()
        invariant
            i <= all.len(),
            ls == texts(all@),
            settings_view(r@) + added(ls.skip(i as int), texts(known@)) == added(ls, first),
        decreases all.len() - i,
    {
        let ghost rest = ls.skip(i as int);
        let ghost names = texts(known@);
        let ghost before = settings_view(r@);
        assert(rest[0] == all@[i as int]@);
        assert(rest.skip(1) =~= ls.skip(i + 1));
        if let Some(s) = read_setting(all[i].as_str()) {
            if !among(&known, s.name.as_str()) {
                let name = s.name.clone();
                let ghost now = s@;
                r.push(s);
                assert(settings_view(r@) =~= before.push(now));
                known.push(name);
                assert(texts(known@) =~= names.push(now.name));
                assert(before + (seq![now] + added(ls.skip(i + 1), texts(known@)))
                    =~= before.push(now) + added(ls.skip(i + 1), texts(known@)));
            }
        }
        i = i + 1;
    }
    assert(added(ls.skip(i as int), texts(known@)) =~= Seq::<SettingView>::empty());
    assert(settings_view(r@) + added(ls.skip(i as int), texts(known@)) =~= settings_view(r@));
    r
}

/// The file never overrides what is set already, and sets no name twice.
pub proof fn law_environment_wins(ls: Seq<Seq<char>>, known: Seq<Seq<char>>)
    ensures
        forall|i: int|
            0 <= i < added(ls, known).len() ==> !known.contains(
                (#[trigger] added(ls, known)[i]).name,
            ),
        forall|i: int, j: int|
            0 <= i < j < added(ls, known).len() ==> (#[trigger] added(ls, known)[i]).name != (
            #[trigger] added(ls, known)[j]).name,
    decreases ls.len(),
{
    if ls.len() > 0 {
        match setting(ls[0]) {
            Some(s) => {
                if known.contains(s.name) {
                    law_environment_wins(ls.skip(1), known);
                    assert(added(ls, known) == added(ls.skip(1), known));
                } else {
                    let more = known.push(s.name);
                    let rest = added(ls.skip(1), more);
                    let new = added(ls, known);
                    law_environment_wins(ls.skip(1), more);
                    assert(more.contains(s.name)) by {
                        assert(more[known.len() as int] == s.name);
                    }
                    assert forall|k: Seq<char>| known.contains(k) implies more.contains(k) by {
                        let w = choose|w: int| 0 <= w < known.len() && known[w] == k;
                        assert(more[w] == k);
                    }
                    assert forall|i: int| 0 < i < new.len() implies new[i] == rest[i - 1] by {
                    }
                    assert forall|i: int| 0 <= i < new.len() implies !known.contains(
                        (#[trigger] new[i]).name,
                    ) by {
                        if i > 0 {
                            assert(!more.contains(rest[i - 1].name));
                        }
                    }
                    assert forall|i: int, j: int| 0 <= i < j < new.len() implies
                        (#[trigger] new[i]).name != (#[trigger] new[j]).name by {
                        assert(!more.contains(rest[j - 1].name));
                        if i > 0 {
                            assert(rest[i - 1].name != rest[j - 1].name);
                        }
                    }
                }
            },
            None => {
                law_environment_wins(ls.skip(1), known);
                assert(added(ls, known) == added(ls.skip(1), known));
            },
        }
    }
}

/// A line with an equals sign makes a setting: what stands before the first one is the name and
/// what stands behind it the value, each without white space round it. A name that begins with a
/// hash makes a comment, and a line without an equals sign is passed over.
pub proof fn law_setting_is_read(name: Seq<char>, value: Seq<char>)
    requires
        !name.contains('='),
    ensures
        setting(name + "="@ + value) == if begins(trimmed(name), "#"@) {
            None
        } else {
            Some(SettingView { name: trimmed(name), value: trimmed(value) })
        },
        setting(name) is None,
{
    reveal_strlit("=");
    lemma_contains(name, "="@);
    assert forall|i: int| !occurs_at(name, "="@, i) by {
        if occurs_at(name, "="@, i) {
            assert(name.subrange(i, i + 1)[0] == '=');
            assert(name[i] == '=');
        }
    }
    lemma_cut_first(name, "="@, value);
}

/// Every setting of the file whose name is neither known nor set on an earlier line is added.
pub proof fn law_first_settings_are_added(ls: Seq<Seq<char>>, known: Seq<Seq<char>>, i: int)
    requires
        0 <= i < ls.len(),
        setting(ls[i]) matches Some(s) && !known.contains(s.name) && forall|j: int|
            0 <= j < i ==> !(setting(#[trigger] ls[j]) matches Some(t) && t.name == s.name),
    ensures
        added(ls, known).contains(setting(ls[i])->0),
    decreases ls.len(),
{
    let s = setting(ls[i])->0;
    if i == 0 {
        assert(added(ls, known)[0] == s);
    } else {
        let rest = ls.skip(1);
        assert(rest[i - 1] == ls[i]);
        assert forall|j: int| 0 <= j < i - 1 implies !(setting(#[trigger] rest[j]) matches Some(t)
            && t.name == s.name) by {
            assert(rest[j] == ls[j + 1]);
        }
        assert(!(setting(ls[0]) matches Some(t) && t.name == s.name));
        match setting(ls[0]) {
            Some(t) => {
                if known.contains(t.name) {
                    law_first_settings_are_added(rest, known, i - 1);
                } else {
                    let more = known.push(t.name);
                    assert(!more.contains(s.name)) by {
                        if more.contains(s.name) {
                            let k = choose|k: int| 0 <= k < more.len() && more[k] == s.name;
                            if k < known.len() {
                                assert(known[k] == s.name);
                            }
                        }
                    }
                    law_first_settings_are_added(rest, more, i - 1);
                    let k = choose|k: int|
                        0 <= k < added(rest, more).len() && added(rest, more)[k] == s;
                    assert(added(ls, known)[k + 1] == s);
                }
            },
            None => {
                law_first_settings_are_added(rest, known, i - 1);
            },
        }
    }
}

/// Nothing is added but what a line of the file sets.
pub proof fn law_added_settings_are_in_the_file(ls: Seq<Seq<char>>, known: Seq<Seq<char>>, k: int)
    requires
        0 <= k < added(ls, known).len(),
    ensures
        exists|i: int|
            0 <= i < ls.len() && setting(#[trigger] ls[i]) == Some(added(ls, known)[k]),
    decreases ls.len(),
{
    if ls.len() > 0 {
        let rest = ls.skip(1);
        let s = added(ls, known)[k];
        let (more, at) = match setting(ls[0]) {
            Some(t) => if known.contains(t.name) {
                (known, k)
            } else {
                (known.push(t.name), k - 1)
            },
            None => (known, k),
        };
        if at >= 0 {
            law_added_settings_are_in_the_file(rest, more, at);
            let i = choose|i: int|
                0 <= i < rest.len() && setting(#[trigger] rest[i]) == Some(added(rest, more)[at]);
            assert(ls[i + 1] == rest[i]);
            assert(added(rest, more)[at] == s);
        } else {
            assert(setting(ls[0]) == Some(s));
        }
    }
}

} // verus!
