//! How each variable of a command gets its value, and its default env.

use vstd::prelude::*;
#[allow(unused_imports)]
use vstd::utf8::{decode_utf8, encode_utf8, valid_utf8};

use crate::crypto::{decrypt, unlock, DerivedKey, NONCE_LEN};
#[allow(unused_imports)]
use crate::crypto::{key_for, opened, unlocks};
use crate::db::commands_repo::set_default_env;
use crate::db::vault::Change;
#[allow(unused_imports)]
use crate::db::vault::ChangeView;
use crate::db::Config;
use crate::error::VaultError;
use crate::models::{CmdVarKind, CmdVariable, EnvKind, StoredCommandVariable, StoredEnv};
#[allow(unused_imports)]
use crate::models::{EnvView, VariableView};
use crate::number::parses_as_float;
#[allow(unused_imports)]
use crate::number::is_float;
use crate::secret::SecretText;
use crate::shell::{BindingSource, ResolvedVar};
#[allow(unused_imports)]
use crate::shell::{ResolvedView, SourceView};
use crate::text::{char_is_space, chars_of, lossy_text, strict_text};
#[allow(unused_imports)]
use crate::text::{is_space, read_lossily};
use crate::tui::parse_pick;
#[allow(unused_imports)]
use crate::tui::picked_id;
#[allow(unused_imports)]
use crate::views::{opt_view, views};

verus! {

broadcast use vstd::string::group_string_axioms;

/// Unlocks the master key once and keeps it for the duration of one `inr`
/// invocation, so running a command with several secret variables only
/// prompts for the password once.
pub struct KeyCache {
    key: Option<DerivedKey>,
}

impl View for KeyCache {
    type V = Option<Seq<u8>>;

    closed spec fn view(&self) -> Option<Seq<u8>> {
        opt_view(self.key)
    }
}

impl KeyCache {
    /// A cache without a key.
    pub fn new() -> (r: KeyCache)
        ensures
            r@ is None,
    {
        KeyCache { key: None }
    }

    /// A cache with the key already unlocked.
    pub fn preloaded(key: DerivedKey) -> (r: KeyCache)
        ensures
            r@ == Some(key@),
    {
        KeyCache { key: Some(key) }
    }

    /// The key, once it is unlocked. Until then a password is needed.
    pub fn get(&self) -> (r: Option<&DerivedKey>)
        ensures
            match r {
                Some(key) => self@ == Some(key@),
                None => self@ is None,
            },
    {
        match &self.key {
            Some(key) => Some(key),
            None => None,
        }
    }

    /// Tries a password. Only the right one has an effect, which is to unlock
    /// the key.
    pub fn try_password(&mut self, cfg: &Config, password: &str) -> (r: bool)
        ensures
            r == unlocks(
                password@,
                cfg.kdf_salt@,
                cfg.canary_nonce@,
                cfg.canary_cipher@,
            ),
            final(self)@ == if r {
                Some(key_for(password@, cfg.kdf_salt@))
            } else {
                old(self)@
            },
    {
        match unlock(
            password,
            cfg.kdf_salt.as_slice(),
            cfg.canary_nonce.as_slice(),
            cfg.canary_cipher.as_slice(),
        ) {
            Ok(key) => {
                self.key = Some(key);
                true
            },
            Err(_) => false,
        }
    }
}

/// The kinds of env that may fill a variable of this kind.
pub open spec fn filling_kinds(cmd_kind: CmdVarKind) -> Seq<EnvKind> {
    match cmd_kind {
        CmdVarKind::Secret => seq![EnvKind::Secret],
        CmdVarKind::Text => seq![EnvKind::Text],
        CmdVarKind::Number => seq![EnvKind::NumberFloat, EnvKind::NumberInt],
    }
}

pub fn compatible_env_kinds(cmd_kind: CmdVarKind) -> (r: Vec<EnvKind>)
    ensures
        r@ == filling_kinds(cmd_kind),
{
    let mut out: Vec<EnvKind> = Vec::new();
    match cmd_kind {
        CmdVarKind::Secret => {
            out.push(EnvKind::Secret);
        },
        CmdVarKind::Text => {
            out.push(EnvKind::Text);
        },
        CmdVarKind::Number => {
            out.push(EnvKind::NumberFloat);
            out.push(EnvKind::NumberInt);
        },
    }
    assert(out@ =~= filling_kinds(cmd_kind));
    out
}

/// The search for envs to fill a variable offers exactly the kinds that may
/// fill it. In particular only a secret variable is ever offered a secret.
pub proof fn searches_offer_exactly_the_compatible_kinds(cmd_kind: CmdVarKind, env_kind: EnvKind)
    ensures
        filling_kinds(cmd_kind).contains(env_kind) <==> env_kind.fills() == cmd_kind,
        filling_kinds(cmd_kind).contains(EnvKind::Secret) <==> cmd_kind == CmdVarKind::Secret,
        filling_kinds(cmd_kind).len() > 0,
{
    let kinds = filling_kinds(cmd_kind);
    assert(kinds[0].fills() == cmd_kind);
    if cmd_kind == CmdVarKind::Number {
        assert(kinds[1] == EnvKind::NumberInt);
    }
    if kinds.contains(env_kind) {
        let i = choose|i: int| 0 <= i < kinds.len() && kinds[i] == env_kind;
    }
}

/// What a secret env's value is once it is decrypted, or what is wrong with
/// it.
pub open spec fn secret_value(key: Seq<u8>, env: EnvView) -> Result<Seq<char>, SecretFault> {
    match env.nonce {
        None => Err(SecretFault::NoNonce),
        Some(nonce) => if nonce.len() != NONCE_LEN {
            Err(SecretFault::BadNonce)
        } else {
            match opened(key, nonce, env.value) {
                None => Err(SecretFault::WrongKey),
                Some(bytes) => if valid_utf8(bytes) {
                    Ok(decode_utf8(bytes))
                } else {
                    Err(SecretFault::NotUtf8)
                },
            }
        },
    }
}

/// Why a secret env has no value to give.
pub enum SecretFault {
    NoNonce,
    BadNonce,
    WrongKey,
    NotUtf8,
}

/// The report of a fault of the secret env called `name`.
pub open spec fn reports_fault(e: VaultError, fault: SecretFault, name: Seq<char>) -> bool {
    match fault {
        SecretFault::NoNonce => e matches VaultError::SecretWithoutNonce(n) && n@ == name,
        SecretFault::BadNonce => e is InvalidNonceLength,
        SecretFault::WrongKey => e is DecryptionFailed,
        SecretFault::NotUtf8 => e matches VaultError::SecretNotUtf8(n) && n@ == name,
    }
}

/// Decrypts the value of a secret env.
pub fn decrypt_env_value(key: &DerivedKey, env: &StoredEnv) -> (r: Result<SecretText, VaultError>)
    ensures
        match r {
            Ok(value) => secret_value(key@, env@) == Ok::<Seq<char>, SecretFault>(value@),
            Err(e) => secret_value(key@, env@) matches Err(fault) && reports_fault(
                e,
                fault,
                env.name@,
            ),
        },
{
    let nonce = match &env.nonce {
        Some(nonce) => nonce,
        None => {
            return Err(VaultError::SecretWithoutNonce(env.name.clone()));
        },
    };
    let plaintext = match decrypt(key, nonce.as_slice(), env.value.as_slice()) {
        Ok(plaintext) => plaintext,
        Err(e) => {
            return Err(e);
        },
    };
    match strict_text(plaintext.as_slice()) {
        Some(text) => Ok(SecretText::new(text)),
        None => Err(VaultError::SecretNotUtf8(env.name.clone())),
    }
}

/// A secret that was encrypted under a key is read back under that key.
pub proof fn encrypted_secret_reads_back(key: Seq<u8>, env: EnvView, text: Seq<char>)
    requires
        env.nonce matches Some(nonce) && nonce.len() == NONCE_LEN && opened(key, nonce, env.value)
            == Some(encode_utf8(text)),
    ensures
        secret_value(key, env) == Ok::<Seq<char>, SecretFault>(text),
{
    vstd::utf8::encode_utf8_valid_utf8(text);
    vstd::utf8::encode_utf8_decode_utf8(text);
}

/// Whether the master key is needed to read an env, as long as it can be read
/// at all.
pub fn env_needs_key(env: &StoredEnv) -> (r: Result<bool, VaultError>)
    ensures
        match r {
            Ok(needed) => {
                &&& needed == (env.kind == EnvKind::Secret)
                &&& needed ==> env.nonce is Some
            },
            Err(VaultError::SecretWithoutNonce(name)) => env.kind == EnvKind::Secret
                && env.nonce is None && name@ == env.name@,
            Err(_) => false,
        },
{
    match env.kind {
        EnvKind::Secret => {
            match env.nonce {
                Some(_) => Ok(true),
                None => Err(VaultError::SecretWithoutNonce(env.name.clone())),
            }
        },
        _ => Ok(false),
    }
}

/// How a variable gets its value.
pub enum Resolution {
    /// From its default env, without a prompt.
    UseEnv(StoredEnv),
    /// From the user, after a notice if its default env cannot be used.
    Prompt(Option<String>),
}

/// The notice for a default env of a kind that the variable cannot take.
pub open spec fn incompatible_notice(name: Seq<char>) -> Seq<char> {
    "Default env for '"@ + name + "' is no longer a compatible kind - enter a value:"@
}

/// The notice for a default env that is gone.
pub open spec fn missing_notice(name: Seq<char>) -> Seq<char> {
    "Default env for '"@ + name + "' no longer exists - enter a value:"@
}

/// Decides how a command variable gets its value at run time. If `var` has a
/// default env set and that env still exists, it's used with zero prompts
/// (secret defaults still go through `KeyCache`, same as an explicit
/// `@`-lookup) - otherwise this falls back to the normal manual prompt, after
/// a one-line notice if the default was set but its env has since been
/// deleted or is of the wrong kind. `default_env` is what a lookup of the
/// default env found.
pub fn resolve_variable(var: &StoredCommandVariable, default_env: Option<StoredEnv>) -> (r:
    Resolution)
    ensures
        match r {
            Resolution::UseEnv(env) => {
                &&& var.default_env_id is Some
                &&& opt_view(default_env) == Some(env@)
                &&& env.kind.fills() == var.var.kind
            },
            Resolution::Prompt(Some(notice)) => {
                &&& var.default_env_id is Some
                &&& match default_env {
                    Some(env) => env.kind.fills() != var.var.kind && notice@
                        == incompatible_notice(var.var.name@),
                    None => notice@ == missing_notice(var.var.name@),
                }
            },
            Resolution::Prompt(None) => var.default_env_id is None,
        },
{
    if var.default_env_id.is_none() {
        return Resolution::Prompt(None);
    }
    match default_env {
        Some(env) => {
            if env.kind.compatible_with(var.var.kind) {
                Resolution::UseEnv(env)
            } else {
                let mut notice = "Default env for '".to_string();
                notice.append(&var.var.name);
                notice.append("' is no longer a compatible kind - enter a value:");
                Resolution::Prompt(Some(notice))
            }
        },
        None => {
            let mut notice = "Default env for '".to_string();
            notice.append(&var.var.name);
            notice.append("' no longer exists - enter a value:");
            Resolution::Prompt(Some(notice))
        },
    }
}

/// How a variable is asked for.
#[derive(Debug, Clone, Copy, PartialEq, Eq, Structural)]
pub enum VariablePrompt {
    /// As a secret: typed unseen, or looked up among the saved secrets.
    Secret,
    /// As text that is typed, or looked up among the saved envs.
    Literal,
}

/// A secret variable is never typed where it can be seen, and no other is asked
/// for as a secret.
pub fn variable_prompt(kind: CmdVarKind) -> (r: VariablePrompt)
    ensures
        r == (if kind == CmdVarKind::Secret {
            VariablePrompt::Secret
        } else {
            VariablePrompt::Literal
        }),
{
    match kind {
        CmdVarKind::Secret => VariablePrompt::Secret,
        CmdVarKind::Text | CmdVarKind::Number => VariablePrompt::Literal,
    }
}

/// A variable with the value of an env.
pub open spec fn bound_to_env(var: VariableView, env: EnvView, value: Seq<char>) -> ResolvedView {
    ResolvedView { var, value, source: SourceView::Env(env.name) }
}

/// Resolves a variable straight from its default env - no prompt at all. The
/// env is of a kind that may fill the variable, as `resolve_variable` has
/// checked. The key must have been unlocked if the env is a secret.
pub fn resolve_from_default_env(keys: &KeyCache, var: &CmdVariable, env: &StoredEnv) -> (r: Result<
    ResolvedVar,
    VaultError,
>)
    requires
        env.kind.fills() == var.kind,
        env.kind == EnvKind::Secret ==> keys@ is Some,
    ensures
        match r {
            Ok(rv) => if env.kind == EnvKind::Secret {
                secret_value(keys@->0, env@) matches Ok(value) && rv@ == bound_to_env(
                    var@,
                    env@,
                    value,
                )
            } else {
                rv@ == bound_to_env(var@, env@, read_lossily(env.value@))
            },
            Err(e) => env.kind == EnvKind::Secret && (secret_value(keys@->0, env@) matches Err(
                fault,
            ) && reports_fault(e, fault, env.name@)),
        },
{
    let value = match env.kind {
        EnvKind::Secret => {
            match keys.get() {
                Some(key) => {
                    match decrypt_env_value(key, env) {
                        Ok(value) => value,
                        Err(e) => {
                            return Err(e);
                        },
                    }
                },
                None => {
                    assert(false);
                    SecretText::new(String::new())
                },
            }
        },
        _ => SecretText::new(lossy_text(env.value.as_slice())),
    };
    Ok(ResolvedVar { var: var.clone(), value, source: BindingSource::Env(env.name.clone()) })
}

/// The prompt for a text or number variable.
pub fn literal_prompt(var: &CmdVariable) -> (r: String)
    ensures
        r@ == var.name@ + " ("@ + var.kind.text()
            + ") - type a value, or '@' to search saved envs:"@,
{
    let mut out = var.name.clone();
    out.append(" (");
    out.append(var.kind.as_str());
    out.append(") - type a value, or '@' to search saved envs:");
    out
}

/// What happened at the prompt for a text or number variable.
pub enum LiteralEvent {
    /// The user gave up.
    Cancelled,
    /// The user submitted this text, after these suggestions had been offered.
    Answered { answer: String, offered: Vec<String> },
    /// The env that the user picked was looked up, with this result.
    LookedUp(Option<StoredEnv>),
}

/// What to do next at the prompt for a text or number variable.
pub enum LiteralAction {
    /// The variable has its value, or was given up.
    Finish(Option<ResolvedVar>),
    /// Ask again, after this notice.
    AskAgain(String),
    /// Look up the env with this id.
    LookUp(String),
}

/// Whether the first character behind white space is `@`.
pub open spec fn begins_a_search(s: Seq<char>, i: int) -> bool
    decreases s.len() - i,
{
    if i < 0 || i >= s.len() {
        false
    } else if is_space(s[i]) {
        begins_a_search(s, i + 1)
    } else {
        s[i] == '@'
    }
}

fn is_search(answer: &str) -> (r: bool)
    ensures
        r == begins_a_search(answer@, 0),
{
    let cs = chars_of(answer);
    let mut i: usize = 0;
    while i < cs.len() && char_is_space(cs[i])
        invariant
            i <= cs.len(),
            begins_a_search(cs@, 0) == begins_a_search(cs@, i as int),
        decreases cs.len() - i,
    {
        i += 1;
    }
    i < cs.len() && cs[i] == '@'
}

/// A variable with a value that was typed.
pub open spec fn bound_literally(var: VariableView, value: Seq<char>) -> ResolvedView {
    ResolvedView { var, value, source: SourceView::Literal }
}

/// The notice for an env of a kind that the variable cannot take.
pub open spec fn wrong_kind_notice(env: EnvView, var: VariableView) -> Seq<char> {
    "'"@ + env.name + "' is a "@ + env.kind.text() + " env, not compatible with a "@
        + var.kind.text() + " variable - pick a different one."@
}

fn say_wrong_kind(env: &StoredEnv, var: &CmdVariable) -> (r: String)
    ensures
        r@ == wrong_kind_notice(env@, var@),
{
    let mut notice = "'".to_string();
    notice.append(&env.name);
    notice.append("' is a ");
    notice.append(env.kind.as_str());
    notice.append(" env, not compatible with a ");
    notice.append(var.kind.as_str());
    notice.append(" variable - pick a different one.");
    notice
}

/// What follows from an event at the prompt for a text or number variable. A
/// picked env is looked up and, if it is still there and of a kind that the
/// variable can take, gives its value. Only a suggestion that was offered is a
/// pick. Of typed text, what looks like the beginning of a search is no value,
/// nor is what is no number for a number variable; anything else is the value.
pub open spec fn literal_action(var: VariableView, event: LiteralEvent, r: LiteralAction) -> bool {
    match event {
        LiteralEvent::Cancelled => r == LiteralAction::Finish(None),
        LiteralEvent::Answered { answer, offered } => match picked_id(answer@, views(offered@)) {
            Some(id) => r matches LiteralAction::LookUp(looked_up) && looked_up@ == id,
            None => if begins_a_search(answer@, 0) {
                r matches LiteralAction::AskAgain(notice) && notice@
                    == "Type to search, then use \u{2191}/\u{2193} and Enter to select a saved env."@
            } else if var.kind == CmdVarKind::Number && !is_float(answer@) {
                r matches LiteralAction::AskAgain(notice) && notice@ == "'"@ + answer@
                    + "' is not a valid number, try again."@
            } else {
                r matches LiteralAction::Finish(Some(rv)) && rv@ == bound_literally(var, answer@)
            },
        },
        LiteralEvent::LookedUp(Some(env)) => if env.kind.fills() == var.kind {
            r matches LiteralAction::Finish(Some(rv)) && rv@ == bound_to_env(
                var,
                env@,
                read_lossily(env.value@),
            )
        } else {
            r matches LiteralAction::AskAgain(notice) && notice@ == wrong_kind_notice(env@, var)
        },
        LiteralEvent::LookedUp(None) => {
            r matches LiteralAction::AskAgain(notice) && notice@
                == "That env no longer exists, try again."@
        },
    }
}

/// Takes a text or number variable one step further. Start by asking, then
/// hand in what happened until there is a result. The search is already
/// kind-filtered, but an env of another kind is refused here too: a secret
/// must never flow into a %t:/%n: slot, where it would end up in argv/history.
pub fn resolve_literal_or_env_variable(var: &CmdVariable, event: LiteralEvent) -> (r: LiteralAction)
    ensures
        literal_action(var@, event, r),
{
    match event {
        LiteralEvent::Cancelled => LiteralAction::Finish(None),
        LiteralEvent::Answered { answer, offered } => {
            match parse_pick(&answer, offered.as_slice()) {
                Some(id) => LiteralAction::LookUp(id),
                None => {
                    if is_search(&answer) {
                        LiteralAction::AskAgain(
                            "Type to search, then use \u{2191}/\u{2193} and Enter to select a saved env.".to_string(),
                        )
                    } else if var.kind == CmdVarKind::Number && !parses_as_float(&answer) {
                        let mut notice = "'".to_string();
                        notice.append(&answer);
                        notice.append("' is not a valid number, try again.");
                        LiteralAction::AskAgain(notice)
                    } else {
                        LiteralAction::Finish(
                            Some(
                                ResolvedVar {
                                    var: var.clone(),
                                    value: SecretText::new(answer),
                                    source: BindingSource::Literal,
                                },
                            ),
                        )
                    }
                },
            }
        },
        LiteralEvent::LookedUp(found) => {
            match found {
                Some(env) => if env.kind.compatible_with(var.kind) {
                    LiteralAction::Finish(
                        Some(
                            ResolvedVar {
                                var: var.clone(),
                                value: SecretText::new(lossy_text(env.value.as_slice())),
                                source: BindingSource::Env(env.name),
                            },
                        ),
                    )
                } else {
                    LiteralAction::AskAgain(say_wrong_kind(&env, var))
                },
                None => LiteralAction::AskAgain("That env no longer exists, try again.".to_string()),
            }
        },
    }
}

/// A number variable only ever takes a literal that is a number.
pub proof fn typed_numbers_are_numbers(var: VariableView, event: LiteralEvent, r: LiteralAction)
    requires
        var.kind == CmdVarKind::Number,
        literal_action(var, event, r),
    ensures
        r matches LiteralAction::Finish(Some(rv)) ==> rv@.source == SourceView::Literal ==> is_float(
            rv@.value,
        ),
{
}

/// Text that was not among the suggestions is never looked up. It is the value
/// as it stands, unless it begins a search or is no number where one is asked
/// for.
pub proof fn typed_text_is_taken_as_it_stands(
    var: VariableView,
    answer: String,
    offered: Vec<String>,
    r: LiteralAction,
)
    requires
        literal_action(var, LiteralEvent::Answered { answer, offered }, r),
        !views(offered@).contains(answer@),
    ensures
        r !is LookUp,
        !begins_a_search(answer@, 0) && (var.kind == CmdVarKind::Number ==> is_float(answer@))
            <==> (r matches LiteralAction::Finish(Some(rv)) && rv@ == bound_literally(
            var,
            answer@,
        )),
{
}

/// A text or number variable never takes the value of an env of another kind:
/// no secret gets into it.
pub proof fn looked_up_values_fit(var: VariableView, event: LiteralEvent, r: LiteralAction)
    requires
        literal_action(var, event, r),
        r matches LiteralAction::Finish(Some(rv)) && rv@.source is Env,
    ensures
        event matches LiteralEvent::LookedUp(Some(env)) && env.kind.fills() == var.kind,
{
}

/// The menu for a secret variable.
pub fn secret_menu(var: &CmdVariable) -> (r: (String, Vec<&'static str>))
    ensures
        r.0@ == var.name@ + " (secret) - how do you want to provide it?"@,
        r.1@.len() == 2,
        r.1@[0]@ == "Type it"@,
        r.1@[1]@ == "Look up from saved secrets (@)"@,
{
    let mut message = var.name.clone();
    message.append(" (secret) - how do you want to provide it?");
    let mut options: Vec<&'static str> = Vec::new();
    options.push("Type it");
    options.push("Look up from saved secrets (@)");
    (message, options)
}

/// What happened while a secret variable was asked for.
pub enum SecretEvent {
    /// The user gave up, at the menu, at the value or in the search.
    Cancelled,
    /// The user chose this entry of the menu.
    Chose(String),
    /// The user typed this value.
    Typed(String),
    /// The user picked this env.
    Picked(StoredEnv),
}

/// What to do next for a secret variable.
pub enum SecretAction {
    /// The variable has its value, or was given up.
    Finish(Option<ResolvedVar>),
    /// Ask for the value, hidden, under this prompt.
    AskValue(String),
    /// Search the saved secrets.
    Search,
    /// Decrypt this env and take its value.
    Decrypt(StoredEnv),
}

/// What follows from an event while a secret variable is asked for. Only an env
/// of a kind that may fill the variable is decrypted; for any other the search
/// goes on.
pub open spec fn secret_action(var: VariableView, event: SecretEvent, r: SecretAction) -> bool {
    match event {
        SecretEvent::Cancelled => r == SecretAction::Finish(None),
        SecretEvent::Chose(choice) => if choice@ == "Type it"@ {
            r matches SecretAction::AskValue(prompt) && prompt@ == var.name + ":"@
        } else {
            r is Search
        },
        SecretEvent::Typed(value) => {
            r matches SecretAction::Finish(Some(rv)) && rv@ == bound_literally(var, value@)
        },
        SecretEvent::Picked(env) => if env.kind.fills() == var.kind {
            r == SecretAction::Decrypt(env)
        } else {
            r is Search
        },
    }
}

/// Takes a secret variable one step further. Start by showing the menu, then
/// hand in what happened until there is a result.
pub fn resolve_secret_variable(var: &CmdVariable, event: SecretEvent) -> (r: SecretAction)
    ensures
        secret_action(var@, event, r),
{
    match event {
        SecretEvent::Cancelled => SecretAction::Finish(None),
        SecretEvent::Chose(choice) => {
            if *choice.as_str() == *"Type it" {
                let mut prompt = var.name.clone();
                prompt.append(":");
                SecretAction::AskValue(prompt)
            } else {
                SecretAction::Search
            }
        },
        SecretEvent::Typed(value) => SecretAction::Finish(
            Some(
                ResolvedVar {
                    var: var.clone(),
                    value: SecretText::new(value),
                    source: BindingSource::Literal,
                },
            ),
        ),
        SecretEvent::Picked(env) => if env.kind.compatible_with(var.kind) {
            SecretAction::Decrypt(env)
        } else {
            SecretAction::Search
        },
    }
}

/// Gives a secret variable the decrypted value of an env, which is of a kind
/// that may fill it, as `resolve_secret_variable` has checked.
pub fn bind_secret_env(key: &DerivedKey, var: &CmdVariable, env: &StoredEnv) -> (r: Result<
    ResolvedVar,
    VaultError,
>)
    requires
        env.kind.fills() == var.kind,
    ensures
        match r {
            Ok(rv) => secret_value(key@, env@) matches Ok(value) && rv@ == bound_to_env(
                var@,
                env@,
                value,
            ),
            Err(e) => secret_value(key@, env@) matches Err(fault) && reports_fault(
                e,
                fault,
                env.name@,
            ),
        },
{
    match decrypt_env_value(key, env) {
        Ok(value) => Ok(
            ResolvedVar {
                var: var.clone(),
                value,
                source: BindingSource::Env(env.name.clone()),
            },
        ),
        Err(e) => Err(e),
    }
}

/// What the user chose when asked about one variable's default env.
pub enum DefaultEnvChoice {
    /// Nothing selected that changes the current state (cancelled, or
    /// explicitly kept as-is).
    Unchanged,
    /// Explicitly asked to remove the default.
    Cleared,
    /// Picked a (kind-compatible) env to use as the default from now on.
    SetTo(StoredEnv),
}

/// The menu for a variable's default env, with the variable's name as it is to
/// be shown.
pub fn default_env_menu(shown_name: &str, kind: CmdVarKind, current: Option<&StoredEnv>) -> (r: (
    String,
    Vec<&'static str>,
))
    ensures
        match current {
            Some(env) => {
                &&& r.0@ == shown_name@ + " ("@ + kind.text() + ") - default env is @"@ + env.name@
                    + ":"@
                &&& r.1@.len() == 3
                &&& r.1@[0]@ == "Keep current default"@
                &&& r.1@[1]@ == "Change default env"@
                &&& r.1@[2]@ == "Remove default"@
            },
            None => {
                &&& r.0@ == shown_name@ + " ("@ + kind.text() + ") - set a default env?"@
                &&& r.1@.len() == 2
                &&& r.1@[0]@ == "No default"@
                &&& r.1@[1]@ == "Set a default env"@
            },
        },
{
    let mut message = shown_name.to_string();
    message.append(" (");
    message.append(kind.as_str());
    let mut options: Vec<&'static str> = Vec::new();
    match current {
        Some(env) => {
            message.append(") - default env is @");
            message.append(&env.name);
            message.append(":");
            options.push("Keep current default");
            options.push("Change default env");
            options.push("Remove default");
        },
        None => {
            message.append(") - set a default env?");
            options.push("No default");
            options.push("Set a default env");
        },
    }
    (message, options)
}

/// What happened while a variable's default env was asked for.
pub enum DefaultEnvEvent {
    /// The user left the menu.
    Cancelled,
    /// The user chose this entry of the menu.
    Chose(String),
    /// The user picked this env, or left the search.
    Picked(Option<StoredEnv>),
}

/// What to do next about a variable's default env.
pub enum DefaultEnvAction {
    /// The user has decided.
    Finish(DefaultEnvChoice),
    /// Search the envs of the kinds that the variable can take.
    Search,
    /// Search again, after this notice.
    SearchAgain(String),
}

/// What follows from an event while a variable's default env is asked for.
pub open spec fn default_env_action(
    var: VariableView,
    event: DefaultEnvEvent,
    r: DefaultEnvAction,
) -> bool {
    match event {
        DefaultEnvEvent::Cancelled => r == DefaultEnvAction::Finish(DefaultEnvChoice::Unchanged),
        DefaultEnvEvent::Chose(choice) => if choice@ == "Keep current default"@ || choice@
            == "No default"@ {
            r == DefaultEnvAction::Finish(DefaultEnvChoice::Unchanged)
        } else if choice@ == "Remove default"@ {
            r == DefaultEnvAction::Finish(DefaultEnvChoice::Cleared)
        } else {
            r is Search
        },
        DefaultEnvEvent::Picked(Some(env)) => if env.kind.fills() == var.kind {
            r == DefaultEnvAction::Finish(DefaultEnvChoice::SetTo(env))
        } else {
            r matches DefaultEnvAction::SearchAgain(notice) && notice@ == wrong_kind_notice(
                env@,
                var,
            )
        },
        DefaultEnvEvent::Picked(None) => r == DefaultEnvAction::Finish(
            DefaultEnvChoice::Unchanged,
        ),
    }
}

/// Takes the question of a variable's default env one step further. Start by
/// showing the menu, then hand in what happened until the user has decided.
/// Leaving at any point changes nothing.
pub fn prompt_default_env_choice(var: &CmdVariable, event: DefaultEnvEvent) -> (r: DefaultEnvAction)
    ensures
        default_env_action(var@, event, r),
{
    match event {
        DefaultEnvEvent::Cancelled => DefaultEnvAction::Finish(DefaultEnvChoice::Unchanged),
        DefaultEnvEvent::Chose(choice) => {
            let choice = choice.as_str();
            if *choice == *"Keep current default" || *choice == *"No default" {
                DefaultEnvAction::Finish(DefaultEnvChoice::Unchanged)
            } else if *choice == *"Remove default" {
                DefaultEnvAction::Finish(DefaultEnvChoice::Cleared)
            } else {
                DefaultEnvAction::Search
            }
        },
        DefaultEnvEvent::Picked(picked) => {
            match picked {
                Some(env) => {
                    if env.kind.compatible_with(var.kind) {
                        DefaultEnvAction::Finish(DefaultEnvChoice::SetTo(env))
                    } else {
                        DefaultEnvAction::SearchAgain(say_wrong_kind(&env, var))
                    }
                },
                None => DefaultEnvAction::Finish(DefaultEnvChoice::Unchanged),
            }
        },
    }
}

/// Only an env that may fill a variable ever becomes its default.
pub proof fn chosen_defaults_are_compatible(
    var: VariableView,
    event: DefaultEnvEvent,
    r: DefaultEnvAction,
)
    requires
        default_env_action(var, event, r),
    ensures
        r matches DefaultEnvAction::Finish(DefaultEnvChoice::SetTo(env)) ==> env.kind.fills()
            == var.kind,
{
}

/// The change that a choice of default env makes, and what to say about it.
pub fn review_default_env(command_id: &str, var: &CmdVariable, choice: &DefaultEnvChoice) -> (r:
    Option<(Change, String)>)
    ensures
        match choice {
            DefaultEnvChoice::Unchanged => r is None,
            DefaultEnvChoice::Cleared => {
                r matches Some((change, notice)) && change@ == (ChangeView::SetDefaultEnv {
                    command_id: command_id@,
                    var_name: var.name@,
                    default_env_id: None,
                }) && notice@ == "Default env cleared for '"@ + var.name@ + "'."@
            },
            DefaultEnvChoice::SetTo(env) => {
                r matches Some((change, notice)) && change@ == (ChangeView::SetDefaultEnv {
                    command_id: command_id@,
                    var_name: var.name@,
                    default_env_id: Some(env.id@),
                }) && notice@ == "Default env for '"@ + var.name@ + "' set to @"@ + env.name@ + "."@
            },
        },
{
    match choice {
        DefaultEnvChoice::Unchanged => None,
        DefaultEnvChoice::Cleared => {
            let mut notice = "Default env cleared for '".to_string();
            notice.append(&var.name);
            notice.append("'.");
            Some((set_default_env(command_id, &var.name, None), notice))
        },
        DefaultEnvChoice::SetTo(env) => {
            let mut notice = "Default env for '".to_string();
            notice.append(&var.name);
            notice.append("' set to @");
            notice.append(&env.name);
            notice.append(".");
            Some((set_default_env(command_id, &var.name, Some(env.id.clone())), notice))
        },
    }
}

} // verus!
