//! Context windows of models: written behind a model's name, as in `model[200k]`,
//! or kept in the `contextWindows` object of the settings.

use vstd::prelude::*;

use crate::json::{
    as_str, as_u64, get_object, get_object_mut, map_get, map_insert, map_new, number, object,
    set_entry, string,
};
use crate::text::same_text;

verus! {

use crate::json::{entries, tree, JsonTree};
use crate::text::{decimal, law_decimal};

/// The environment variables that name a model.
pub open spec fn model_keys() -> Seq<Seq<char>> {
    seq![
        "ANTHROPIC_MODEL"@,
        "ANTHROPIC_DEFAULT_HAIKU_MODEL"@,
        "ANTHROPIC_DEFAULT_SONNET_MODEL"@,
        "ANTHROPIC_DEFAULT_OPUS_MODEL"@,
        "ANTHROPIC_DEFAULT_FABLE_MODEL"@,
        "CLAUDE_CODE_SUBAGENT_MODEL"@,
    ]
}

/// How many environment variables name a model.
pub const CLAUDE_MODEL_ENV_KEY_COUNT: usize = 6;

/// The environment variable that names a model, by its place in [`model_keys`].
pub fn claude_model_env_key(i: usize) -> (key: &'static str)
    requires
        i < CLAUDE_MODEL_ENV_KEY_COUNT,
    ensures
        key@ == model_keys()[i as int],
{
    match i {
        0 => "ANTHROPIC_MODEL",
        1 => "ANTHROPIC_DEFAULT_HAIKU_MODEL",
        2 => "ANTHROPIC_DEFAULT_SONNET_MODEL",
        3 => "ANTHROPIC_DEFAULT_OPUS_MODEL",
        4 => "ANTHROPIC_DEFAULT_FABLE_MODEL",
        _ => "CLAUDE_CODE_SUBAGENT_MODEL",
    }
}

/// The six environment variables have six names.
pub proof fn lemma_model_keys_differ()
    ensures
        model_keys().len() == CLAUDE_MODEL_ENV_KEY_COUNT,
        forall|i: int, j: int|
            0 <= i < j < model_keys().len() ==> #[trigger] model_keys()[i]
                != #[trigger] model_keys()[j],
{
    reveal_strlit("ANTHROPIC_MODEL");
    reveal_strlit("ANTHROPIC_DEFAULT_HAIKU_MODEL");
    reveal_strlit("ANTHROPIC_DEFAULT_SONNET_MODEL");
    reveal_strlit("ANTHROPIC_DEFAULT_OPUS_MODEL");
    reveal_strlit("ANTHROPIC_DEFAULT_FABLE_MODEL");
    reveal_strlit("CLAUDE_CODE_SUBAGENT_MODEL");
    assert("ANTHROPIC_DEFAULT_HAIKU_MODEL"@[18] == 'H');
    assert("ANTHROPIC_DEFAULT_SONNET_MODEL"@.len() == 30);
    assert("ANTHROPIC_DEFAULT_OPUS_MODEL"@.len() == 28);
    assert("ANTHROPIC_DEFAULT_FABLE_MODEL"@[18] == 'F');
    assert("CLAUDE_CODE_SUBAGENT_MODEL"@.len() == 26);
    assert("ANTHROPIC_MODEL"@.len() == 15);
}

/// Whether a character is a decimal digit.
pub open spec fn is_digit(c: char) -> bool {
    '0' <= c <= '9'
}

/// The number that decimal digits write.
pub open spec fn digits_value(s: Seq<char>) -> nat
    decreases s.len(),
{
    if s.len() == 0 {
        0
    } else {
        digits_value(s.drop_last()) * 10 + (s.last() as nat - 48) as nat
    }
}

/// Whether this is a number of one or more decimal digits.
pub open spec fn is_number(s: Seq<char>) -> bool {
    s.len() > 0 && forall|i: int| 0 <= i < s.len() ==> is_digit(#[trigger] s[i])
}

/// What the letter at the end of a window multiplies it by.
pub open spec fn unit_of(c: char) -> Option<nat> {
    if c == 'k' || c == 'K' {
        Some(1_000)
    } else if c == 'm' || c == 'M' {
        Some(1_000_000)
    } else {
        None
    }
}

/// The window that a text writes: a number, or a number and a unit.
pub open spec fn written_window(s: Seq<char>) -> Option<nat> {
    if s.len() > 0 && unit_of(s.last()) is Some && is_number(s.drop_last()) {
        Some(digits_value(s.drop_last()) * unit_of(s.last())->0)
    } else if is_number(s) {
        Some(digits_value(s))
    } else {
        None
    }
}

/// The place of the last opening bracket, or -1.
pub open spec fn last_open(s: Seq<char>) -> int
    decreases s.len(),
{
    if s.len() == 0 {
        -1
    } else if s.last() == '[' {
        s.len() - 1
    } else {
        last_open(s.drop_last())
    }
}

/// The window in brackets at the end of a model's name, where one is written that
/// is not zero and fits a `u64`.
pub open spec fn suffix_window(model: Seq<char>) -> Option<u64> {
    let open = last_open(model);
    if open >= 0 && model.last() == ']' {
        match written_window(model.subrange(open + 1, model.len() - 1)) {
            Some(window) => if 0 < window <= u64::MAX {
                Some(window as u64)
            } else {
                None
            },
            None => None,
        }
    } else {
        None
    }
}

/// A model's name without the window behind it.
pub open spec fn without_suffix(model: Seq<char>) -> Seq<char> {
    if suffix_window(model) is Some {
        model.take(last_open(model))
    } else {
        model
    }
}

/// The window that the settings give for a model variable: the one in
/// `contextWindows`, or else the one behind the model's name.
pub open spec fn context_window(settings: JsonTree, key: Seq<char>) -> Option<u64> {
    let listed = match settings.object_at("contextWindows"@) {
        Some(windows) => match windows.get(key) {
            Some(value) => value.natural(),
            None => None,
        },
        None => None,
    };
    match listed {
        Some(window) => Some(window),
        None => match settings.object_at("env"@) {
            Some(env) => match env.text_at(key) {
                Some(model) => suffix_window(model),
                None => None,
            },
            None => None,
        },
    }
}

/// The `contextWindows` of settings with a window for a variable that had none.
pub open spec fn with_window(settings: JsonTree, key: Seq<char>, window: u64) -> JsonTree {
    let windows = match settings.object_at("contextWindows"@) {
        Some(windows) => windows,
        None => JsonTree::empty_object(),
    };
    settings.set(
        "contextWindows"@,
        if windows.get(key) is Some {
            windows
        } else {
            windows.set(key, JsonTree::Natural(window))
        },
    )
}

/// Settings in which the window behind one model's name has moved to
/// `contextWindows`.
pub open spec fn migrated_key(settings: JsonTree, key: Seq<char>) -> JsonTree {
    match settings.object_at("env"@) {
        Some(env) => match env.text_at(key) {
            Some(model) => match suffix_window(model) {
                Some(window) => with_window(
                    settings.set("env"@, env.set(key, JsonTree::Text(without_suffix(model)))),
                    key,
                    window,
                ),
                None => settings,
            },
            None => settings,
        },
        None => settings,
    }
}

/// Settings in which the windows behind the first `n` models' names have moved to
/// `contextWindows`.
pub open spec fn migrated_keys(settings: JsonTree, n: nat) -> JsonTree
    decreases n,
{
    if n == 0 {
        settings
    } else {
        migrated_key(
            migrated_keys(settings, (n - 1) as nat),
            model_keys()[n - 1],
        )
    }
}

/// Settings in which the windows behind all models' names have moved to
/// `contextWindows`.
pub open spec fn migrated(settings: JsonTree) -> JsonTree {
    migrated_keys(settings, model_keys().len())
}

/// Environment variables of which the first `n` models' names have lost the window
/// behind them.
pub open spec fn cleaned_env(env: JsonTree, n: nat) -> JsonTree
    decreases n,
{
    if n == 0 {
        env
    } else {
        let before = cleaned_env(env, (n - 1) as nat);
        let key = model_keys()[n - 1];
        match before.text_at(key) {
            Some(model) => before.set(key, JsonTree::Text(without_suffix(model))),
            None => before,
        }
    }
}

/// Settings in which no model's name has a window behind it.
pub open spec fn cleaned(settings: JsonTree) -> JsonTree {
    match settings.object_at("env"@) {
        Some(env) => settings.set("env"@, cleaned_env(env, model_keys().len())),
        None => settings,
    }
}

/// The number that decimal digits write, unless it does not fit.
fn parse_digits(model: &str, from: usize, to: usize) -> (result: Option<u64>)
    requires
        from <= to <= model@.len(),
    ensures
        match result {
            Some(n) => is_number(model@.subrange(from as int, to as int)) && n == digits_value(
                model@.subrange(from as int, to as int),
            ),
            None => !is_number(model@.subrange(from as int, to as int)) || digits_value(
                model@.subrange(from as int, to as int),
            ) > u64::MAX,
        },
{
    if from == to {
        return None;
    }
    let ghost all = model@.subrange(from as int, to as int);
    let mut fits = true;
    let mut value: u64 = 0;
    let mut i: usize = from;
    while i < to
        invariant
            from <= i <= to <= model@.len(),
            all == model@.subrange(from as int, to as int),
            forall|k: int| 0 <= k < i - from ==> is_digit(#[trigger] all[k]),
            fits ==> value == digits_value(all.take(i - from)),
            !fits ==> digits_value(all.take(i - from)) > u64::MAX,
        decreases to - i,
    {
        let c = model.get_char(i);
        assert(c == all[i - from]);
        if !('0' <= c && c <= '9') {
            assert(!is_digit(all[i - from]));
            return None;
        }
        let digit: u64 = (c as u32 - 48) as u64;
        assert(all.take(i + 1 - from).drop_last() =~= all.take(i - from));
        if fits {
            match value.checked_mul(10) {
                Some(tens) => match tens.checked_add(digit) {
                    Some(sum) => {
                        value = sum;
                    },
                    None => {
                        fits = false;
                    },
                },
                None => {
                    fits = false;
                },
            }
        }
        i += 1;
    }
    assert(all.take(to - from) =~= all);
    if fits {
        Some(value)
    } else {
        None
    }
}

/// The place of the last opening bracket.
fn find_last_open(model: &str) -> (result: Option<usize>)
    ensures
        match result {
            Some(i) => i < model@.len() && i == last_open(model@),
            None => last_open(model@) == -1,
        },
{
    let mut to: usize = model.unicode_len();
    assert(model@.take(to as int) =~= model@);
    while to > 0
        invariant
            to <= model@.len(),
            last_open(model@) == last_open(model@.take(to as int)),
        decreases to,
    {
        assert(model@.take(to as int).drop_last() =~= model@.take(to - 1));
        if model.get_char(to - 1) == '[' {
            return Some(to - 1);
        }
        to -= 1;
    }
    None
}

/// A model's name without the window in brackets behind it, and that window.
pub fn parse_context_window_suffix(model: &str) -> (result: (&str, Option<u64>))
    ensures
        result.0@ == without_suffix(model@),
        result.1 == suffix_window(model@),
{
    let len: usize = model.unicode_len();
    let open: usize = match find_last_open(model) {
        Some(open) => open,
        None => {
            return (model, None);
        },
    };
    if model.get_char(len - 1) != ']' {
        return (model, None);
    }
    let ghost inner = model@.subrange(open + 1, len - 1);
    assert(model@[open as int] == '[') by {
        lemma_last_open(model@);
    }
    if len - 1 == open + 1 {
        return (model, None);
    }
    let last = model.get_char(len - 2);
    assert(inner.last() == last);
    let unit: u64 = if last == 'k' || last == 'K' {
        1_000
    } else if last == 'm' || last == 'M' {
        1_000_000
    } else {
        1
    };
    let end: usize = if unit == 1 {
        len - 1
    } else {
        len - 2
    };
    proof {
        if unit != 1 {
            assert(model@.subrange(open + 1, end as int) =~= inner.drop_last());
            assert(!is_digit(inner[inner.len() - 1]));
            assert(!is_number(inner));
        } else {
            assert(model@.subrange(open + 1, end as int) =~= inner);
        }
    }
    let window: Option<u64> = match parse_digits(model, open + 1, end) {
        Some(value) => value.checked_mul(unit),
        None => None,
    };
    proof {
        let digits = model@.subrange(open + 1, end as int);
        assert(written_window(inner) == if is_number(digits) {
            Some((digits_value(digits) * unit) as nat)
        } else {
            None
        });
        if digits_value(digits) > u64::MAX {
            assert(digits_value(digits) * unit > u64::MAX) by (nonlinear_arith)
                requires
                    digits_value(digits) > u64::MAX,
                    unit >= 1,
            ;
        }
    }
    match window {
        Some(window) => if window > 0 {
            assert(written_window(inner) == Some(window as nat));
            assert(model@.subrange(0, open as int) =~= model@.take(open as int));
            (model.substring_char(0, open), Some(window))
        } else {
            (model, None)
        },
        None => (model, None),
    }
}

/// What the place of the last opening bracket is.
proof fn lemma_last_open(s: Seq<char>)
    ensures
        last_open(s) < s.len(),
        last_open(s) >= 0 ==> s[last_open(s)] == '[',
    decreases s.len(),
{
    if s.len() > 0 && s.last() != '[' {
        lemma_last_open(s.drop_last());
    }
}

/// A model's name as an upstream service knows it: without the window behind it.
pub fn strip_one_m_suffix_for_upstream(model: &str) -> (result: &str)
    ensures
        result@ == without_suffix(model@),
{
    parse_context_window_suffix(model).0
}

/// The window that the settings give for a model variable.
pub fn resolve_context_window(settings: &serde_json::Value, key: &str) -> (result: Option<u64>)
    ensures
        result == context_window(tree(*settings), key@),
{
    if let Some(windows) = get_object(settings, "contextWindows") {
        if let Some(value) = map_get(windows, key) {
            if let Some(window) = as_u64(value) {
                return Some(window);
            }
        }
    }
    if let Some(env) = get_object(settings, "env") {
        if let Some(value) = map_get(env, key) {
            if let Some(model) = as_str(value) {
                return parse_context_window_suffix(model).1;
            }
        }
    }
    None
}

/// Moves the windows behind all models' names to `contextWindows`. A window that is
/// listed there already stays.
pub fn migrate_legacy_suffix_to_context_windows(settings: &mut serde_json::Value)
    ensures
        tree(*final(settings)) == migrated(tree(*old(settings))),
{
    let mut i: usize = 0;
    while i < CLAUDE_MODEL_ENV_KEY_COUNT
        invariant
            i <= CLAUDE_MODEL_ENV_KEY_COUNT,
            tree(*settings) == migrated_keys(tree(*old(settings)), i as nat),
        decreases CLAUDE_MODEL_ENV_KEY_COUNT - i,
    {
        migrate_key(settings, claude_model_env_key(i));
        i += 1;
    }
}

fn migrate_key(settings: &mut serde_json::Value, key: &str)
    ensures
        tree(*final(settings)) == migrated_key(tree(*old(settings)), key@),
{
    let (name, window) = match model_with_window(settings, key) {
        Some(found) => found,
        None => {
            return;
        },
    };
    if let Some(env) = get_object_mut(settings, "env") {
        map_insert(env, key.to_owned(), string(name));
    }
    set_window(settings, key, window);
}

/// The name of a model that has a window behind it, and that window.
fn model_with_window(settings: &serde_json::Value, key: &str) -> (result: Option<(String, u64)>)
    ensures
        match result {
            Some((name, window)) => match tree(*settings).object_at("env"@) {
                Some(env) => match env.text_at(key@) {
                    Some(model) => suffix_window(model) == Some(window) && name@ == without_suffix(
                        model,
                    ),
                    None => false,
                },
                None => false,
            },
            None => match tree(*settings).object_at("env"@) {
                Some(env) => match env.text_at(key@) {
                    Some(model) => suffix_window(model) is None,
                    None => true,
                },
                None => true,
            },
        },
{
    let env = match get_object(settings, "env") {
        Some(env) => env,
        None => {
            return None;
        },
    };
    match map_get(env, key) {
        Some(value) => match as_str(value) {
            Some(model) => {
                let (name, window) = parse_context_window_suffix(model);
                match window {
                    Some(window) => Some((name.to_owned(), window)),
                    None => None,
                }
            },
            None => None,
        },
        None => None,
    }
}

fn set_window(settings: &mut serde_json::Value, key: &str, window: u64)
    requires
        tree(*old(settings)) is Object,
    ensures
        tree(*final(settings)) == with_window(tree(*old(settings)), key@, window),
{
    let ghost before = tree(*settings);
    if get_object(settings, "contextWindows").is_none() {
        set_entry(settings, "contextWindows", object(map_new()));
    }
    proof {
        let map = before->Object_0;
        assert(map.insert("contextWindows"@, JsonTree::empty_object()).insert(
            "contextWindows"@,
            JsonTree::empty_object().set(key@, JsonTree::Natural(window)),
        ) =~= map.insert(
            "contextWindows"@,
            JsonTree::empty_object().set(key@, JsonTree::Natural(window)),
        ));
    }
    if let Some(windows) = get_object_mut(settings, "contextWindows") {
        if map_get(windows, key).is_none() {
            map_insert(windows, key.to_owned(), number(window));
        }
    }
}

/// Takes the windows behind all models' names off.
pub fn strip_legacy_suffixes_from_claude_models(settings: &mut serde_json::Value)
    ensures
        tree(*final(settings)) == cleaned(tree(*old(settings))),
{
    let env = match get_object_mut(settings, "env") {
        Some(env) => env,
        None => {
            return;
        },
    };
    strip_suffixes(env);
}

fn strip_suffixes(env: &mut crate::json::JsonMap)
    ensures
        JsonTree::Object(entries(*final(env))) == cleaned_env(
            JsonTree::Object(entries(*old(env))),
            model_keys().len(),
        ),
{
    let mut i: usize = 0;
    while i < CLAUDE_MODEL_ENV_KEY_COUNT
        invariant
            i <= CLAUDE_MODEL_ENV_KEY_COUNT,
            JsonTree::Object(entries(*env)) == cleaned_env(
                JsonTree::Object(entries(*old(env))),
                i as nat,
            ),
        decreases CLAUDE_MODEL_ENV_KEY_COUNT - i,
    {
        let ghost before = entries(*env);
        let key = claude_model_env_key(i);
        let name = match map_get(env, key) {
            Some(value) => match as_str(value) {
                Some(model) => {
                    let name = strip_one_m_suffix_for_upstream(model);
                    if same_text(name, model) {
                        assert(before.insert(key@, JsonTree::Text(model@)) =~= before);
                        None
                    } else {
                        Some(name.to_owned())
                    }
                },
                None => None,
            },
            None => None,
        };
        if let Some(name) = name {
            map_insert(env, key.to_owned(), string(name));
        }
        i += 1;
    }
}

/// Law: a window that `contextWindows` lists counts more than one behind the
/// model's name.
pub proof fn law_listed_window_wins(settings: JsonTree, key: Seq<char>, window: u64)
    requires
        settings.object_at("contextWindows"@) is Some,
        settings.object_at("contextWindows"@)->0.get(key) == Some(JsonTree::Natural(window)),
    ensures
        context_window(settings, key) == Some(window),
{
}

/// What taking the windows off the first `n` models' names does to one variable.
pub proof fn lemma_cleaned_env(env: JsonTree, n: nat, key: Seq<char>)
    requires
        env is Object,
        n <= model_keys().len(),
    ensures
        cleaned_env(env, n) is Object,
        cleaned_env(env, n).get(key) == if exists|i: int| 0 <= i < n && #[trigger] model_keys()[i] == key {
            match env.text_at(key) {
                Some(model) => Some(JsonTree::Text(without_suffix(model))),
                None => env.get(key),
            }
        } else {
            env.get(key)
        },
    decreases n,
{
    if n > 0 {
        lemma_cleaned_env(env, (n - 1) as nat, key);
        lemma_model_keys_differ();
        let last = model_keys()[n - 1];
        lemma_cleaned_env(env, (n - 1) as nat, last);
        assert(!exists|i: int| 0 <= i < n - 1 && #[trigger] model_keys()[i] == last);
        if key == last {
            assert(exists|i: int| 0 <= i < n && #[trigger] model_keys()[i] == key);
        } else if exists|i: int| 0 <= i < n && #[trigger] model_keys()[i] == key {
            let i = choose|i: int| 0 <= i < n && #[trigger] model_keys()[i] == key;
            assert(0 <= i < n - 1 && model_keys()[i] == key);
        }
    }
}

/// The two fields of settings that migration concerns have different names.
pub proof fn lemma_env_is_not_windows()
    ensures
        "env"@ != "contextWindows"@,
{
    reveal_strlit("env");
    reveal_strlit("contextWindows");
    assert("env"@.len() != "contextWindows"@.len());
}

/// What migration of one variable leaves alone.
proof fn lemma_migrated_key_frame(settings: JsonTree, moved: Seq<char>, key: Seq<char>)
    ensures
        settings is Object <==> migrated_key(settings, moved) is Object,
        settings.object_at("env"@) is None ==> migrated_key(settings, moved) == settings,
        settings.object_at("env"@) is Some ==> {
            &&& migrated_key(settings, moved).object_at("env"@) is Some
            &&& key != moved ==> migrated_key(settings, moved).object_at("env"@)->0.get(key)
                == settings.object_at("env"@)->0.get(key)
        },
        key != "env"@ && key != "contextWindows"@ ==> migrated_key(settings, moved).get(key)
            == settings.get(key),
{
    lemma_env_is_not_windows();
}

/// What migration of the first `n` variables leaves alone.
pub proof fn lemma_migrated_frame(settings: JsonTree, n: nat, key: Seq<char>)
    requires
        n <= model_keys().len(),
    ensures
        settings is Object <==> migrated_keys(settings, n) is Object,
        settings.object_at("env"@) is None ==> migrated_keys(settings, n) == settings,
        settings.object_at("env"@) is Some ==> {
            &&& migrated_keys(settings, n).object_at("env"@) is Some
            &&& !model_keys().contains(key) ==> migrated_keys(settings, n).object_at("env"@)->0.get(
                key,
            ) == settings.object_at("env"@)->0.get(key)
        },
        key != "env"@ && key != "contextWindows"@ ==> migrated_keys(settings, n).get(key)
            == settings.get(key),
    decreases n,
{
    if n > 0 {
        lemma_migrated_frame(settings, (n - 1) as nat, key);
        lemma_migrated_key_frame(
            migrated_keys(settings, (n - 1) as nat),
            model_keys()[n - 1],
            key,
        );
        assert(model_keys().contains(model_keys()[n - 1]));
    }
}

/// A name with the mark of a million tokens behind it, and without it.
pub proof fn lemma_marker_comes_off(model: Seq<char>)
    ensures
        suffix_window(model + "[1M]"@) == Some(1_000_000u64),
        without_suffix(model + "[1M]"@) == model,
{
    reveal_strlit("[1M]");
    let marked = model + "[1M]"@;
    let len = marked.len() as int;
    assert(marked[len - 4] == '[');
    assert(marked[len - 3] == '1');
    assert(marked[len - 2] == 'M');
    assert(marked.last() == ']');
    let three = marked.drop_last();
    let two = three.drop_last();
    let one = two.drop_last();
    assert(last_open(marked) == last_open(three));
    assert(last_open(three) == last_open(two));
    assert(last_open(two) == last_open(one));
    assert(one.last() == '[');
    let inner = marked.subrange(len - 3, len - 1);
    assert(inner.last() == 'M');
    assert(inner.drop_last() =~= seq!['1']);
    assert(seq!['1'].drop_last() =~= Seq::<char>::empty());
    assert(digits_value(Seq::<char>::empty()) == 0);
    assert(digits_value(seq!['1']) == 1);
    assert(marked.take(len - 4) =~= model);
}

/// What `contextWindows` lists for a variable.
pub open spec fn listed(settings: JsonTree, key: Seq<char>) -> Option<JsonTree> {
    match settings.object_at("contextWindows"@) {
        Some(windows) => windows.get(key),
        None => None,
    }
}

/// The model that the environment names under a variable.
pub open spec fn named_model(settings: JsonTree, key: Seq<char>) -> Option<Seq<char>> {
    match settings.object_at("env"@) {
        Some(env) => env.text_at(key),
        None => None,
    }
}

/// What migration of one variable does to the window and the model of another, and
/// of itself.
proof fn lemma_migrated_key_windows(settings: JsonTree, moved: Seq<char>, key: Seq<char>)
    ensures
        key != moved ==> listed(migrated_key(settings, moved), key) == listed(settings, key),
        key != moved ==> named_model(migrated_key(settings, moved), key) == named_model(
            settings,
            key,
        ),
        key == moved ==> match named_model(settings, key) {
            Some(model) => match suffix_window(model) {
                Some(window) => {
                    &&& named_model(migrated_key(settings, moved), key) == Some(
                        without_suffix(model),
                    )
                    &&& listed(migrated_key(settings, moved), key) == match listed(settings, key) {
                        Some(value) => Some(value),
                        None => Some(JsonTree::Natural(window)),
                    }
                },
                None => migrated_key(settings, moved) == settings,
            },
            None => migrated_key(settings, moved) == settings,
        },
{
    lemma_env_is_not_windows();
}

/// What migration of the first `n` variables does to the window and the model of one.
pub proof fn lemma_migrated_windows(settings: JsonTree, n: nat, i: int)
    requires
        n <= model_keys().len(),
        0 <= i < model_keys().len(),
    ensures
        ({
            let key = model_keys()[i];
            let after = migrated_keys(settings, n);
            match named_model(settings, key) {
                Some(model) => match suffix_window(model) {
                    Some(window) if i < n => {
                        &&& named_model(after, key) == Some(without_suffix(model))
                        &&& listed(after, key) == match listed(settings, key) {
                            Some(value) => Some(value),
                            None => Some(JsonTree::Natural(window)),
                        }
                    },
                    _ => {
                        &&& named_model(after, key) == Some(model)
                        &&& listed(after, key) == listed(settings, key)
                    },
                },
                None => {
                    &&& named_model(after, key) is None
                    &&& listed(after, key) == listed(settings, key)
                },
            }
        }),
    decreases n,
{
    if n > 0 {
        lemma_model_keys_differ();
        lemma_migrated_windows(settings, (n - 1) as nat, i);
        lemma_migrated_key_windows(
            migrated_keys(settings, (n - 1) as nat),
            model_keys()[n - 1],
            model_keys()[i],
        );
    }
}

/// Law: a model variable has the same window after migration as before. The one
/// exception has a window behind the model's name, and in `contextWindows` something
/// that is no natural number.
pub proof fn law_migration_keeps_windows(settings: JsonTree, i: int)
    requires
        0 <= i < model_keys().len(),
        listed(settings, model_keys()[i]) is None || listed(
            settings,
            model_keys()[i],
        )->0 is Natural || named_model(settings, model_keys()[i]) is None || suffix_window(
            named_model(settings, model_keys()[i])->0,
        ) is None,
    ensures
        context_window(migrated(settings), model_keys()[i]) == context_window(
            settings,
            model_keys()[i],
        ),
{
    lemma_migrated_windows(settings, model_keys().len(), i);
}

/// Law: migrating twice is the same as migrating once, where no model's name has two
/// windows behind it.
pub proof fn law_migration_is_idempotent(settings: JsonTree)
    requires
        forall|i: int|
            0 <= i < model_keys().len() ==> match named_model(settings, #[trigger] model_keys()[i]) {
                Some(model) => suffix_window(without_suffix(model)) is None,
                None => true,
            },
    ensures
        migrated(migrated(settings)) == migrated(settings),
{
    let once = migrated(settings);
    assert forall|i: int| 0 <= i < model_keys().len() implies match named_model(
        once,
        #[trigger] model_keys()[i],
    ) {
        Some(model) => suffix_window(model) is None,
        None => true,
    } by {
        lemma_migrated_windows(settings, model_keys().len(), i);
    }
    lemma_nothing_to_migrate(once, model_keys().len());
}

proof fn lemma_nothing_to_migrate(settings: JsonTree, n: nat)
    requires
        n <= model_keys().len(),
        forall|i: int|
            0 <= i < model_keys().len() ==> match named_model(settings, #[trigger] model_keys()[i]) {
                Some(model) => suffix_window(model) is None,
                None => true,
            },
    ensures
        migrated_keys(settings, n) == settings,
    decreases n,
{
    if n > 0 {
        lemma_nothing_to_migrate(settings, (n - 1) as nat);
        lemma_migrated_key_windows(settings, model_keys()[n - 1], model_keys()[n - 1]);
    }
}

/// Whether an environment variable names a model.
pub open spec fn is_model_variable(key: Seq<char>) -> bool {
    ||| key == "ANTHROPIC_MODEL"@
    ||| key == "ANTHROPIC_DEFAULT_HAIKU_MODEL"@
    ||| key == "ANTHROPIC_DEFAULT_SONNET_MODEL"@
    ||| key == "ANTHROPIC_DEFAULT_OPUS_MODEL"@
    ||| key == "ANTHROPIC_DEFAULT_FABLE_MODEL"@
    ||| key == "CLAUDE_CODE_SUBAGENT_MODEL"@
}

/// Law: the variables that are gone through are those that name a model.
pub proof fn law_model_variables(key: Seq<char>)
    ensures
        is_model_variable(key) <==> exists|i: int|
            0 <= i < model_keys().len() && #[trigger] model_keys()[i] == key,
{
    let keys = model_keys();
    assert(keys[0] == "ANTHROPIC_MODEL"@);
    assert(keys[1] == "ANTHROPIC_DEFAULT_HAIKU_MODEL"@);
    assert(keys[2] == "ANTHROPIC_DEFAULT_SONNET_MODEL"@);
    assert(keys[3] == "ANTHROPIC_DEFAULT_OPUS_MODEL"@);
    assert(keys[4] == "ANTHROPIC_DEFAULT_FABLE_MODEL"@);
    assert(keys[5] == "CLAUDE_CODE_SUBAGENT_MODEL"@);
    assert(keys.len() == 6);
}

/// The number that the decimal digits of a number write.
proof fn lemma_decimal_is_read(n: nat)
    ensures
        is_number(decimal(n)),
        digits_value(decimal(n)) == n,
    decreases n,
{
    law_decimal(n);
    assert forall|i: int| 0 <= i < decimal(n).len() implies is_digit(#[trigger] decimal(n)[i]) by {}
    if n >= 10 {
        lemma_decimal_is_read(n / 10);
        assert(n == (n / 10) * 10 + n % 10);
    } else {
        assert(decimal(n).drop_last() =~= Seq::<char>::empty());
        assert(digits_value(Seq::<char>::empty()) == 0);
    }
}

/// The last opening bracket is before a part that has none.
proof fn lemma_last_open_before(before: Seq<char>, after: Seq<char>)
    requires
        forall|i: int| 0 <= i < after.len() ==> #[trigger] after[i] != '[',
    ensures
        last_open(before.push('[') + after) == before.len(),
    decreases after.len(),
{
    let whole = before.push('[') + after;
    if after.len() == 0 {
        assert(whole =~= before.push('['));
    } else {
        assert(whole.last() == after[after.len() - 1]);
        assert(whole.drop_last() =~= before.push('[') + after.drop_last());
        assert forall|i: int| 0 <= i < after.drop_last().len() implies #[trigger]
            after.drop_last()[i] != '[' by {
            assert(after[i] != '[');
        }
        lemma_last_open_before(before, after.drop_last());
    }
}

/// Law: a number in brackets behind a model's name is its window, in thousands where a `k`
/// follows it and in millions where an `m` does, in either case; zeros in front of it make no
/// difference. What stands before the brackets is the name. A window of zero, or one that is too
/// large, is none, and part of the name.
pub proof fn law_written_window_is_read(
    model: Seq<char>,
    zeros: Seq<char>,
    n: nat,
    unit: Seq<char>,
)
    requires
        unit.len() == 0 || unit.len() == 1 && (unit[0] == 'k' || unit[0] == 'K' || unit[0] == 'm'
            || unit[0] == 'M'),
        forall|i: int| 0 <= i < zeros.len() ==> #[trigger] zeros[i] == '0',
    ensures
        ({
            let times: nat = if unit.len() == 0 {
                1
            } else if unit[0] == 'k' || unit[0] == 'K' {
                1_000
            } else {
                1_000_000
            };
            let written = model.push('[') + (zeros + decimal(n)) + unit.push(']');
            &&& 0 < n * times <= u64::MAX ==> suffix_window(written) == Some((n * times) as u64)
                && without_suffix(written) == model
            &&& n * times == 0 || n * times > u64::MAX ==> suffix_window(written) is None
                && without_suffix(written) == written
        }),
{
    let times: nat = if unit.len() == 0 {
        1
    } else if unit[0] == 'k' || unit[0] == 'K' {
        1_000
    } else {
        1_000_000
    };
    let digits = zeros + decimal(n);
    let after = digits + unit.push(']');
    let written = model.push('[') + digits + unit.push(']');
    assert(written =~= model.push('[') + after);
    law_decimal(n);
    lemma_decimal_is_read(n);
    lemma_zeros_in_front(zeros, decimal(n));
    assert forall|i: int| 0 <= i < digits.len() implies is_digit(#[trigger] digits[i]) by {
        if i < zeros.len() {
            assert(zeros[i] == '0');
        } else {
            assert(decimal(n)[i - zeros.len()] == digits[i]);
        }
    }
    assert forall|i: int| 0 <= i < after.len() implies #[trigger] after[i] != '[' by {
        if i < digits.len() {
            assert(after[i] == digits[i]);
            assert(is_digit(digits[i]));
        } else if i < digits.len() + unit.len() {
            assert(after[i] == unit[0]);
        }
    }
    lemma_last_open_before(model, after);
    let inner = written.subrange(model.len() as int + 1, written.len() - 1);
    assert(inner =~= digits + unit);
    assert(written.last() == ']');
    assert(written.take(model.len() as int) =~= model);
    if unit.len() == 0 {
        assert(inner =~= digits);
        assert(is_digit(inner[inner.len() - 1]));
        assert(unit_of(inner.last()) is None);
    } else {
        assert(inner.drop_last() =~= digits);
        assert(inner.last() == unit[0]);
    }
    assert(written_window(inner) == Some(n * times));
}

/// Zeros in front of a number do not change it.
proof fn lemma_zeros_in_front(zeros: Seq<char>, digits: Seq<char>)
    requires
        forall|i: int| 0 <= i < zeros.len() ==> #[trigger] zeros[i] == '0',
    ensures
        digits_value(zeros + digits) == digits_value(digits),
    decreases zeros.len() + digits.len(),
{
    let both = zeros + digits;
    if digits.len() > 0 {
        assert(both.drop_last() =~= zeros + digits.drop_last());
        lemma_zeros_in_front(zeros, digits.drop_last());
    } else if zeros.len() > 0 {
        assert(both =~= zeros);
        assert(zeros.drop_last() + digits =~= zeros.drop_last());
        assert forall|i: int| 0 <= i < zeros.drop_last().len() implies #[trigger]
            zeros.drop_last()[i] == '0' by {
            assert(zeros[i] == '0');
        }
        assert(zeros.last() == zeros[zeros.len() - 1]);
        lemma_zeros_in_front(zeros.drop_last(), digits);
    } else {
        assert(both =~= digits);
    }
}

/// Law: a name has a window behind it only where it ends in brackets with digits in them and,
/// at most, one letter for the unit. The window is never zero. A name without one stays as it
/// is.
pub proof fn law_only_brackets_hold_windows(model: Seq<char>)
    ensures
        suffix_window(model) is None ==> without_suffix(model) == model,
        suffix_window(model) matches Some(window) ==> {
            let name = without_suffix(model);
            let open = name.len() as int;
            &&& window > 0
            &&& open + 2 < model.len()
            &&& name == model.take(open)
            &&& model[open] == '['
            &&& model.last() == ']'
            &&& '0' <= model[open + 1] <= '9'
            &&& forall|i: int| open < i < model.len() - 2 ==> '0' <= #[trigger] model[i] <= '9'
            &&& {
                let unit = model[model.len() - 2];
                '0' <= unit <= '9' || unit == 'k' || unit == 'K' || unit == 'm' || unit == 'M'
            }
        },
{
    if suffix_window(model) is Some {
        lemma_last_open(model);
        let open = last_open(model);
        let inner = model.subrange(open + 1, model.len() - 1);
        let digits = if unit_of(inner.last()) is Some && is_number(inner.drop_last()) {
            inner.drop_last()
        } else {
            inner
        };
        assert(is_number(digits));
        assert(digits[0] == model[open + 1]);
        assert(is_digit(digits[0]));
        assert(inner[inner.len() - 1] == model[model.len() - 2]);
        if digits == inner {
            assert(is_digit(digits[digits.len() - 1]));
        }
        assert forall|i: int| open < i < model.len() - 2 implies '0' <= #[trigger] model[i]
            <= '9' by {
            assert(digits[i - open - 1] == model[i]);
            assert(is_digit(digits[i - open - 1]));
        }
    }
}

/// Law: the window of a model variable is the natural number that is listed for it, or else,
/// whatever else may be listed, the one behind its model's name; where there is neither, it has
/// none.
pub proof fn law_listed_before_written(settings: JsonTree, key: Seq<char>)
    ensures
        listed(settings, key) matches Some(JsonTree::Natural(window)) ==> context_window(
            settings,
            key,
        ) == Some(window),
        !(listed(settings, key) is Some && listed(settings, key)->0 is Natural) ==> {
            &&& named_model(settings, key) matches Some(model) ==> context_window(settings, key)
                == suffix_window(model)
            &&& named_model(settings, key) is None ==> context_window(settings, key) is None
        },
{
}

/// Law: the window of a model variable depends on what is listed for that variable and on its
/// model, and on nothing else in the settings.
pub proof fn law_window_of_own_variable(a: JsonTree, b: JsonTree, key: Seq<char>)
    requires
        listed(a, key) == listed(b, key),
        named_model(a, key) == named_model(b, key),
    ensures
        context_window(a, key) == context_window(b, key),
{
}

/// Law: migration takes the window off each model's name and lists it for the variable, unless
/// something is listed there already. It touches no other variable, no other listing and no
/// other field.
pub proof fn law_migration_by_key(settings: JsonTree, key: Seq<char>)
    ensures
        settings.object_at("env"@) is None ==> migrated(settings) == settings,
        is_model_variable(key) ==> match named_model(settings, key) {
            Some(model) => {
                &&& named_model(migrated(settings), key) == Some(without_suffix(model))
                &&& listed(migrated(settings), key) == match (
                    listed(settings, key),
                    suffix_window(model),
                ) {
                    (None, Some(window)) => Some(JsonTree::Natural(window)),
                    (before, _) => before,
                }
            },
            None => {
                &&& named_model(migrated(settings), key) is None
                &&& listed(migrated(settings), key) == listed(settings, key)
            },
        },
        settings.object_at("env"@) is Some && !is_model_variable(key) ==> migrated(
            settings,
        ).object_at("env"@) is Some && migrated(settings).object_at("env"@)->0.get(key)
            == settings.object_at("env"@)->0.get(key),
        !is_model_variable(key) ==> listed(migrated(settings), key) == listed(settings, key),
        key != "env"@ && key != "contextWindows"@ ==> migrated(settings).get(key) == settings.get(
            key,
        ),
{
    law_model_variables(key);
    lemma_migrated_frame(settings, model_keys().len(), key);
    if is_model_variable(key) {
        let i = choose|i: int| 0 <= i < model_keys().len() && #[trigger] model_keys()[i] == key;
        lemma_migrated_windows(settings, model_keys().len(), i);
    } else {
        assert(!model_keys().contains(key));
        lemma_other_listings(settings, model_keys().len(), key);
    }
}

proof fn lemma_other_listings(settings: JsonTree, n: nat, key: Seq<char>)
    requires
        n <= model_keys().len(),
        !model_keys().contains(key),
    ensures
        listed(migrated_keys(settings, n), key) == listed(settings, key),
    decreases n,
{
    if n > 0 {
        lemma_other_listings(settings, (n - 1) as nat, key);
        assert(model_keys().contains(model_keys()[n - 1]));
        lemma_migrated_key_windows(
            migrated_keys(settings, (n - 1) as nat),
            model_keys()[n - 1],
            key,
        );
    }
}

/// Law: taking the windows off leaves each model variable with the name alone, and touches no
/// other variable and no other field.
pub proof fn law_cleaned_by_key(settings: JsonTree, key: Seq<char>)
    ensures
        settings.object_at("env"@) is None ==> cleaned(settings) == settings,
        is_model_variable(key) ==> named_model(cleaned(settings), key) == match named_model(
            settings,
            key,
        ) {
            Some(model) => Some(without_suffix(model)),
            None => None,
        },
        settings.object_at("env"@) is Some ==> {
            &&& cleaned(settings).object_at("env"@) is Some
            &&& !is_model_variable(key) || named_model(settings, key) is None ==> cleaned(
                settings,
            ).object_at("env"@)->0.get(key) == settings.object_at("env"@)->0.get(key)
        },
        key != "env"@ ==> cleaned(settings).get(key) == settings.get(key),
{
    law_model_variables(key);
    if settings.object_at("env"@) is Some {
        lemma_cleaned_env(settings.object_at("env"@)->0, model_keys().len(), key);
    }
}

/// Law: a name that ends in a window in brackets is read as the name before them and that window,
/// and any other name as it is, without a window.
pub proof fn law_suffix_is_parsed(
    model: &str,
    result: (&str, Option<u64>),
    name: Seq<char>,
    n: nat,
    unit: Seq<char>,
)
    requires
        call_ensures(parse_context_window_suffix, (model,), result),
        unit.len() == 0 || unit.len() == 1 && (unit[0] == 'k' || unit[0] == 'K' || unit[0] == 'm'
            || unit[0] == 'M'),
    ensures
        model@.len() == 0 || model@.last() != ']' ==> result.0@ == model@ && result.1 is None,
        result.1 is None ==> result.0@ == model@,
        model@ == name.push('[') + decimal(n) + unit.push(']') ==> {
            let times: nat = if unit.len() == 0 {
                1
            } else if unit[0] == 'k' || unit[0] == 'K' {
                1_000
            } else {
                1_000_000
            };
            &&& 0 < n * times <= u64::MAX ==> result.0@ == name && result.1 == Some(
                (n * times) as u64,
            )
            &&& n * times == 0 || n * times > u64::MAX ==> result.1 is None
        },
{
    law_only_brackets_hold_windows(model@);
    law_written_window_is_read(name, Seq::empty(), n, unit);
    assert(Seq::<char>::empty() + decimal(n) =~= decimal(n));
    if model@.len() == 0 {
        lemma_last_open(model@);
    }
}

/// Law: the window of a model variable is resolved from what is listed for it, or else from the
/// name of its model, and from nothing else.
pub proof fn law_window_is_resolved(
    settings: &serde_json::Value,
    key: &str,
    result: Option<u64>,
)
    requires
        call_ensures(resolve_context_window, (settings, key), result),
    ensures
        ({
            let listing = listed(tree(*settings), key@);
            let model = named_model(tree(*settings), key@);
            &&& listing is Some && listing->0 is Natural ==> result == Some(listing->0->Natural_0)
            &&& !(listing is Some && listing->0 is Natural) && model is Some ==> result
                == suffix_window(model->0)
            &&& !(listing is Some && listing->0 is Natural) && model is None ==> result is None
        }),
{
    law_listed_before_written(tree(*settings), key@);
}

/// Law: migrating settings in place moves the window behind each model's name to the list, unless
/// something is listed there, and stripping them takes it off; both leave all other variables.
pub proof fn law_suffixes_move_and_go(
    moved: &mut serde_json::Value,
    stripped: &mut serde_json::Value,
    key: Seq<char>,
)
    requires
        call_ensures(migrate_legacy_suffix_to_context_windows, (moved,), ()),
        call_ensures(strip_legacy_suffixes_from_claude_models, (stripped,), ()),
    ensures
        is_model_variable(key) ==> (named_model(tree(*old(moved)), key) matches Some(model) ==> {
            &&& named_model(tree(*final(moved)), key) == Some(without_suffix(model))
            &&& listed(tree(*old(moved)), key) is Some ==> listed(tree(*final(moved)), key)
                == listed(tree(*old(moved)), key)
            &&& listed(tree(*old(moved)), key) is None && suffix_window(model) is Some ==> listed(
                tree(*final(moved)),
                key,
            ) == Some(JsonTree::Natural(suffix_window(model)->0))
        }),
        is_model_variable(key) ==> (named_model(tree(*old(stripped)), key) matches Some(model)
            ==> named_model(tree(*final(stripped)), key) == Some(without_suffix(model))),
        !is_model_variable(key) ==> named_model(tree(*final(moved)), key) == named_model(
            tree(*old(moved)),
            key,
        ) && named_model(tree(*final(stripped)), key) == named_model(tree(*old(stripped)), key),
        key != "env"@ ==> tree(*final(stripped)).get(key) == tree(*old(stripped)).get(key),
        key != "env"@ && key != "contextWindows"@ ==> tree(*final(moved)).get(key) == tree(
            *old(moved),
        ).get(key),
{
    law_migration_by_key(tree(*old(moved)), key);
    law_cleaned_by_key(tree(*old(stripped)), key);
}

} // verus!
