//! The registrar: what has to be written to the protocol-handler store so
//! that the system starts this program for URLs of the handled scheme, and
//! what these writes do to a store.

use vstd::prelude::*;
use vstd::string::*;
use crate::dispatch::HANDLED_PROTOCOL;

verus! {

/// A store of keys, each a path with named values: for every key that
/// exists, the values set on it.
pub type StoreView = Map<Seq<char>, Map<Seq<char>, Seq<char>>>;

/// Whether a key was made by the request to create it or was there already.
#[derive(Clone, Copy, Debug, PartialEq, Eq, Structural)]
pub enum KeyDisposition {
    CreatedNewKey,
    OpenedExistingKey,
}

/// What is reported of a key that was created or opened.
pub open spec fn disposition_text(disposition: KeyDisposition) -> Seq<char> {
    match disposition {
        KeyDisposition::CreatedNewKey => "A new key has been created"@,
        KeyDisposition::OpenedExistingKey => "An existing key has been opened"@,
    }
}

/// The line to log for a key that was created or opened.
pub fn log_key(disposition: &KeyDisposition) -> (line: &'static str)
    ensures
        line@ == disposition_text(*disposition),
{
    match disposition {
        KeyDisposition::CreatedNewKey => "A new key has been created",
        KeyDisposition::OpenedExistingKey => "An existing key has been opened",
    }
}

/// One write to the store.
#[derive(Debug, PartialEq, Eq)]
pub enum RegistryAction {
    /// Create the key at `path`, or open it if it exists.
    CreateKey { path: String },
    /// Set the value `name` of the key at `path` to `data`; the empty name
    /// is the key's default value.
    SetValue { path: String, name: String, data: String },
}

/// The mathematical counterpart of [`RegistryAction`].
pub enum RegistryActionView {
    CreateKey { path: Seq<char> },
    SetValue { path: Seq<char>, name: Seq<char>, data: Seq<char> },
}

impl View for RegistryAction {
    type V = RegistryActionView;

    open spec fn view(&self) -> RegistryActionView {
        match self {
            RegistryAction::CreateKey { path } => RegistryActionView::CreateKey { path: path@ },
            RegistryAction::SetValue { path, name, data } => RegistryActionView::SetValue {
                path: path@,
                name: name@,
                data: data@,
            },
        }
    }
}

/// The views of a sequence of actions.
pub open spec fn actions_view(actions: Seq<RegistryAction>) -> Seq<RegistryActionView> {
    Seq::new(actions.len(), |i: int| actions[i]@)
}

/// The path of the key `name` under the key at `parent`.
pub open spec fn subkey_path(parent: Seq<char>, name: Seq<char>) -> Seq<char> {
    parent + "\\"@ + name
}

/// The label of a URL scheme: the default value of its key.
pub open spec fn protocol_label(scheme: Seq<char>) -> Seq<char> {
    "URL:"@ + scheme + " Protocol"@
}

/// The command line that the system runs for a URL: the quoted path of the
/// executable, then `--url` and the quoted placeholder that the system
/// replaces by the URL.
pub open spec fn command_template(exe_path: Seq<char>) -> Seq<char> {
    "\""@ + exe_path + "\" --url \"%1\""@
}

/// The path of the key that holds the command of `scheme`.
pub open spec fn command_key_path(scheme: Seq<char>) -> Seq<char> {
    subkey_path(subkey_path(subkey_path(scheme, "shell"@), "open"@), "command"@)
}

/// The writes that register the executable at `exe_path` as the handler of
/// `scheme`: the scheme's key with its label and the marker that makes it a
/// URL protocol, then the keys down to `shell\open\command`, and the command
/// line as the default value of the last.
pub open spec fn registration_actions(scheme: Seq<char>, exe_path: Seq<char>) -> Seq<
    RegistryActionView,
> {
    let shell = subkey_path(scheme, "shell"@);
    let open = subkey_path(shell, "open"@);
    let command = subkey_path(open, "command"@);
    seq![
        RegistryActionView::CreateKey { path: scheme },
        RegistryActionView::SetValue { path: scheme, name: ""@, data: protocol_label(scheme) },
        RegistryActionView::SetValue { path: scheme, name: "URL Protocol"@, data: ""@ },
        RegistryActionView::CreateKey { path: shell },
        RegistryActionView::CreateKey { path: open },
        RegistryActionView::CreateKey { path: command },
        RegistryActionView::SetValue { path: command, name: ""@, data: command_template(exe_path) },
    ]
}

/// The path of the key `name` under the key at `parent`.
fn subkey(parent: &str, name: &str) -> (path: String)
    ensures
        path@ == subkey_path(parent@, name@),
{
    let mut path = String::from_str(parent);
    path.append("\\");
    path.append(name);
    path
}

/// The writes that register the executable at `exe_path` as the handler of
/// the handled scheme, in the order in which they are to be made.
pub fn registration_plan(exe_path: &str) -> (plan: Vec<RegistryAction>)
    ensures
        actions_view(plan@) == registration_actions(HANDLED_PROTOCOL@, exe_path@),
{
    let shell = subkey(HANDLED_PROTOCOL, "shell");
    let open = subkey(shell.as_str(), "open");
    let command = subkey(open.as_str(), "command");
    let mut label = String::from_str("URL:");
    label.append(HANDLED_PROTOCOL);
    label.append(" Protocol");
    let mut template = String::from_str("\"");
    template.append(exe_path);
    template.append("\" --url \"%1\"");
    let mut plan: Vec<RegistryAction> = Vec::new();
    plan.push(RegistryAction::CreateKey { path: String::from_str(HANDLED_PROTOCOL) });
    plan.push(
        RegistryAction::SetValue {
            path: String::from_str(HANDLED_PROTOCOL),
            name: String::from_str(""),
            data: label,
        },
    );
    plan.push(
        RegistryAction::SetValue {
            path: String::from_str(HANDLED_PROTOCOL),
            name: String::from_str("URL Protocol"),
            data: String::from_str(""),
        },
    );
    plan.push(RegistryAction::CreateKey { path: shell });
    plan.push(RegistryAction::CreateKey { path: open });
    plan.push(RegistryAction::CreateKey { path: command.clone() });
    plan.push(
        RegistryAction::SetValue { path: command, name: String::from_str(""), data: template },
    );
    plan
}

/// The store after the key at `path` was created or opened. Keys are told
/// apart by their whole path, and creating one says nothing of the keys
/// above it.
pub open spec fn key_created(store: StoreView, path: Seq<char>) -> StoreView {
    if store.dom().contains(path) {
        store
    } else {
        store.insert(path, Map::empty())
    }
}

/// The store after the value `name` of the key at `path` was set to `data`.
/// A key that does not exist takes no value: the store stays as it is.
pub open spec fn value_set(
    store: StoreView,
    path: Seq<char>,
    name: Seq<char>,
    data: Seq<char>,
) -> StoreView {
    if store.dom().contains(path) {
        store.insert(path, store[path].insert(name, data))
    } else {
        store
    }
}

/// The store after one action.
pub open spec fn applied(store: StoreView, action: RegistryActionView) -> StoreView {
    match action {
        RegistryActionView::CreateKey { path } => key_created(store, path),
        RegistryActionView::SetValue { path, name, data } => value_set(store, path, name, data),
    }
}

/// The store after a sequence of actions, made in order.
pub open spec fn applied_all(store: StoreView, actions: Seq<RegistryActionView>) -> StoreView
    decreases actions.len(),
{
    if actions.len() == 0 {
        store
    } else {
        applied(applied_all(store, actions.drop_last()), actions.last())
    }
}

/// Whether an action can be carried out on a store: a value can only be set
/// on a key that exists.
pub open spec fn applicable(store: StoreView, action: RegistryActionView) -> bool {
    match action {
        RegistryActionView::CreateKey { .. } => true,
        RegistryActionView::SetValue { path, .. } => store.dom().contains(path),
    }
}

/// Whether every action of a sequence can be carried out when its turn
/// comes.
pub open spec fn runs_through(store: StoreView, actions: Seq<RegistryActionView>) -> bool
    decreases actions.len(),
{
    if actions.len() == 0 {
        true
    } else {
        runs_through(store, actions.drop_last()) && applicable(
            applied_all(store, actions.drop_last()),
            actions.last(),
        )
    }
}

/// What asking for the key at `path` finds in a store.
pub open spec fn found_key(store: StoreView, path: Seq<char>) -> KeyDisposition {
    if store.dom().contains(path) {
        KeyDisposition::OpenedExistingKey
    } else {
        KeyDisposition::CreatedNewKey
    }
}

/// For each key that a sequence of actions asks for, in order, whether it
/// was created or was there before.
pub open spec fn dispositions(store: StoreView, actions: Seq<RegistryActionView>) -> Seq<
    KeyDisposition,
>
    decreases actions.len(),
{
    if actions.len() == 0 {
        Seq::empty()
    } else {
        let earlier = dispositions(store, actions.drop_last());
        match actions.last() {
            RegistryActionView::CreateKey { path } => earlier.push(
                found_key(applied_all(store, actions.drop_last()), path),
            ),
            RegistryActionView::SetValue { .. } => earlier,
        }
    }
}

/// The store after the executable at `exe_path` was registered as the
/// handler of the handled scheme.
pub open spec fn registered(store: StoreView, exe_path: Seq<char>) -> StoreView {
    applied_all(store, registration_actions(HANDLED_PROTOCOL@, exe_path))
}

/// A sequence of actions that runs through does so up to each of its
/// actions, and that action can then be carried out.
pub proof fn lemma_runs_through_prefix(store: StoreView, actions: Seq<RegistryActionView>, k: int)
    requires
        runs_through(store, actions),
        0 <= k < actions.len(),
    ensures
        runs_through(store, actions.take(k)),
        applicable(applied_all(store, actions.take(k)), actions[k]),
    decreases actions.len(),
{
    if k == actions.len() - 1 {
        assert(actions.take(k) =~= actions.drop_last());
    } else {
        lemma_runs_through_prefix(store, actions.drop_last(), k);
        assert(actions.drop_last().take(k) =~= actions.take(k));
    }
}

/// A key lies at another path than each key above it.
proof fn lemma_subkey_path_is_longer(parent: Seq<char>, name: Seq<char>)
    ensures
        subkey_path(parent, name).len() == parent.len() + 1 + name.len(),
{
    reveal_strlit("\\");
}

/// The store that registration leaves, written out write by write.
spec fn registered_stepwise(store: StoreView, scheme: Seq<char>, exe_path: Seq<char>) -> StoreView {
    let shell = subkey_path(scheme, "shell"@);
    let open = subkey_path(shell, "open"@);
    let command = subkey_path(open, "command"@);
    let s1 = key_created(store, scheme);
    let s2 = value_set(s1, scheme, ""@, protocol_label(scheme));
    let s3 = value_set(s2, scheme, "URL Protocol"@, ""@);
    let s4 = key_created(s3, shell);
    let s5 = key_created(s4, open);
    let s6 = key_created(s5, command);
    value_set(s6, command, ""@, command_template(exe_path))
}

/// The seven writes of a registration, one after the other: each value is
/// set on a key that the write before it has made sure of, and each of the
/// four keys is found as the store had it before.
proof fn lemma_registered_stepwise(store: StoreView, scheme: Seq<char>, exe_path: Seq<char>)
    ensures
        applied_all(store, registration_actions(scheme, exe_path)) == registered_stepwise(
            store,
            scheme,
            exe_path,
        ),
        runs_through(store, registration_actions(scheme, exe_path)),
        dispositions(store, registration_actions(scheme, exe_path)) == seq![
            found_key(store, scheme),
            found_key(store, subkey_path(scheme, "shell"@)),
            found_key(store, subkey_path(subkey_path(scheme, "shell"@), "open"@)),
            found_key(store, command_key_path(scheme)),
        ],
{
    let shell = subkey_path(scheme, "shell"@);
    let open = subkey_path(shell, "open"@);
    lemma_subkey_path_is_longer(scheme, "shell"@);
    lemma_subkey_path_is_longer(shell, "open"@);
    lemma_subkey_path_is_longer(open, "command"@);
    let a7 = registration_actions(scheme, exe_path);
    let a6 = a7.drop_last();
    let a5 = a6.drop_last();
    let a4 = a5.drop_last();
    let a3 = a4.drop_last();
    let a2 = a3.drop_last();
    let a1 = a2.drop_last();
    let a0 = a1.drop_last();
    assert(a0.len() == 0);
    assert(applied_all(store, a0) == store);
    assert(applied_all(store, a1) == applied(applied_all(store, a0), a1.last()));
    assert(applied_all(store, a2) == applied(applied_all(store, a1), a2.last()));
    assert(applied_all(store, a3) == applied(applied_all(store, a2), a3.last()));
    assert(applied_all(store, a4) == applied(applied_all(store, a3), a4.last()));
    assert(applied_all(store, a5) == applied(applied_all(store, a4), a5.last()));
    assert(applied_all(store, a6) == applied(applied_all(store, a5), a6.last()));
    assert(applied_all(store, a7) == applied(applied_all(store, a6), a7.last()));
    assert(runs_through(store, a0));
    assert(runs_through(store, a1));
    assert(runs_through(store, a2));
    assert(runs_through(store, a3));
    assert(runs_through(store, a4));
    assert(runs_through(store, a5));
    assert(runs_through(store, a6));
    assert(runs_through(store, a7));
    assert(dispositions(store, a0) =~= Seq::empty());
    assert(dispositions(store, a1) =~= seq![found_key(store, scheme)]);
    assert(dispositions(store, a2) =~= dispositions(store, a1));
    assert(dispositions(store, a3) =~= dispositions(store, a2));
    assert(dispositions(store, a4) =~= dispositions(store, a3).push(found_key(store, shell)));
    assert(dispositions(store, a5) =~= dispositions(store, a4).push(found_key(store, open)));
    assert(dispositions(store, a6) =~= dispositions(store, a5).push(
        found_key(store, command_key_path(scheme)),
    ));
    assert(dispositions(store, a7) =~= dispositions(store, a6));
}

/// Every write of a registration can be made when its turn comes, whatever
/// the store holds.
pub proof fn lemma_registration_runs_through(store: StoreView, exe_path: Seq<char>)
    ensures
        runs_through(store, registration_actions(HANDLED_PROTOCOL@, exe_path)),
{
    lemma_registered_stepwise(store, HANDLED_PROTOCOL@, exe_path);
}

/// What registration leaves in the store: the four keys exist; the scheme's
/// key holds its label and the protocol marker, the command key holds the
/// command line of this executable, whatever either held before; every other
/// key and every other value is as it was.
pub proof fn lemma_registered_store(store: StoreView, exe_path: Seq<char>)
    ensures
        ({
            let after = registered(store, exe_path);
            let scheme = HANDLED_PROTOCOL@;
            let shell = subkey_path(scheme, "shell"@);
            let open = subkey_path(shell, "open"@);
            let command = command_key_path(scheme);
            let was = |path: Seq<char>|
                if store.dom().contains(path) {
                    store[path]
                } else {
                    Map::<Seq<char>, Seq<char>>::empty()
                };
            &&& after.dom() == store.dom().insert(scheme).insert(shell).insert(open).insert(command)
            &&& after[scheme] == was(scheme).insert(""@, protocol_label(scheme)).insert(
                "URL Protocol"@,
                ""@,
            )
            &&& after[shell] == was(shell)
            &&& after[open] == was(open)
            &&& after[command] == was(command).insert(""@, command_template(exe_path))
            &&& forall|path: Seq<char>|
                path != scheme && path != shell && path != open && path != command
                    && store.dom().contains(path) ==> #[trigger] after[path] == store[path]
        }),
{
    let scheme = HANDLED_PROTOCOL@;
    let shell = subkey_path(scheme, "shell"@);
    let open = subkey_path(shell, "open"@);
    let command = subkey_path(open, "command"@);
    lemma_registered_stepwise(store, scheme, exe_path);
    lemma_subkey_path_is_longer(scheme, "shell"@);
    lemma_subkey_path_is_longer(shell, "open"@);
    lemma_subkey_path_is_longer(open, "command"@);
    let after = registered(store, exe_path);
    assert(after.dom() =~= store.dom().insert(scheme).insert(shell).insert(open).insert(command));
}

/// Registering twice in a row leaves the store as registering once does.
pub proof fn lemma_registration_is_idempotent(store: StoreView, exe_path: Seq<char>)
    ensures
        registered(registered(store, exe_path), exe_path) == registered(store, exe_path),
{
    let scheme = HANDLED_PROTOCOL@;
    let shell = subkey_path(scheme, "shell"@);
    let open = subkey_path(shell, "open"@);
    let command = subkey_path(open, "command"@);
    let once = registered(store, exe_path);
    let twice = registered(once, exe_path);
    lemma_registered_stepwise(store, scheme, exe_path);
    lemma_registered_stepwise(once, scheme, exe_path);
    lemma_subkey_path_is_longer(scheme, "shell"@);
    lemma_subkey_path_is_longer(shell, "open"@);
    lemma_subkey_path_is_longer(open, "command"@);
    // The label and the marker are two values of one key: their names differ.
    reveal_strlit("");
    reveal_strlit("URL Protocol");
    assert(twice.dom() =~= once.dom());
    assert(twice[scheme] =~= once[scheme]);
    assert(twice[command] =~= once[command]);
    assert(twice =~= once);
}

/// A registration reports of each of the four keys, from the scheme's key
/// down to the command key, whether the store had it before; a second
/// registration finds all four in place.
pub proof fn lemma_registration_reports_keys(store: StoreView, exe_path: Seq<char>)
    ensures
        ({
            let scheme = HANDLED_PROTOCOL@;
            let shell = subkey_path(scheme, "shell"@);
            let open = subkey_path(shell, "open"@);
            let command = command_key_path(scheme);
            let plan = registration_actions(scheme, exe_path);
            &&& dispositions(store, plan) == seq![
                found_key(store, scheme),
                found_key(store, shell),
                found_key(store, open),
                found_key(store, command),
            ]
            &&& dispositions(registered(store, exe_path), plan) == seq![
                KeyDisposition::OpenedExistingKey,
                KeyDisposition::OpenedExistingKey,
                KeyDisposition::OpenedExistingKey,
                KeyDisposition::OpenedExistingKey,
            ]
        }),
{
    lemma_registered_stepwise(store, HANDLED_PROTOCOL@, exe_path);
    lemma_registered_stepwise(registered(store, exe_path), HANDLED_PROTOCOL@, exe_path);
}

} // verus!
