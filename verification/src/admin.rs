//! The commands by which an operator switches the WebDAV service on and
//! off and adds, changes and removes its users.

use vstd::prelude::*;
use crate::auth::WebDavConfig;
use crate::passwords::{generate_random_password, is_generated};
use crate::text::{chars_of, contains_char, lemma_count_char_contains, lemma_split_parts, split,
    split_chars, str_eq, string_of};
use crate::users::{is_valid_permissions, valid_permissions, UserConfig, UserSpec, UserTable};

verus! {

/// What a command did, for the operator to read.
#[derive(Clone, Debug)]
pub enum WebdavReport {
    /// The service was switched on.
    Enabled,
    /// The service was switched off.
    Disabled,
    /// The permission string holds a character other than `r`, `w`, `x`;
    /// nothing was changed and nothing is to be saved.
    InvalidPermissions,
    /// A user was added.
    Added { name: String, password: String, permissions: String },
    /// The user to add exists already.
    AlreadyExists { name: String },
    /// `add` came without a name.
    NameMissing,
    /// A user was removed.
    Removed { name: String },
    /// No user of that name exists.
    NotFound { name: String },
    /// `del` came without a name.
    RemoveNameMissing,
    /// Permissions and password of a user were replaced.
    Replaced { name: String, permissions: String },
    /// A user that did not exist was created with permissions and password.
    Created { name: String, permissions: String },
    /// The permissions of a user were replaced.
    PermissionsSet { name: String, permissions: String },
    /// The password of a user was replaced.
    PasswordSet { name: String },
    /// A name came without permissions or password.
    InvalidCommand,
    /// No command: the state of the service is shown.
    Status,
}

/// The mathematical content of a `WebdavReport`.
pub enum ReportSpec {
    Enabled,
    Disabled,
    InvalidPermissions,
    Added { name: Seq<char>, password: Seq<char>, permissions: Seq<char> },
    AlreadyExists { name: Seq<char> },
    NameMissing,
    Removed { name: Seq<char> },
    NotFound { name: Seq<char> },
    RemoveNameMissing,
    Replaced { name: Seq<char>, permissions: Seq<char> },
    Created { name: Seq<char>, permissions: Seq<char> },
    PermissionsSet { name: Seq<char>, permissions: Seq<char> },
    PasswordSet { name: Seq<char> },
    InvalidCommand,
    Status,
}

impl View for WebdavReport {
    type V = ReportSpec;

    open spec fn view(&self) -> ReportSpec {
        match self {
            WebdavReport::Enabled => ReportSpec::Enabled,
            WebdavReport::Disabled => ReportSpec::Disabled,
            WebdavReport::InvalidPermissions => ReportSpec::InvalidPermissions,
            WebdavReport::Added { name, password, permissions } => ReportSpec::Added {
                name: name@,
                password: password@,
                permissions: permissions@,
            },
            WebdavReport::AlreadyExists { name } => ReportSpec::AlreadyExists { name: name@ },
            WebdavReport::NameMissing => ReportSpec::NameMissing,
            WebdavReport::Removed { name } => ReportSpec::Removed { name: name@ },
            WebdavReport::NotFound { name } => ReportSpec::NotFound { name: name@ },
            WebdavReport::RemoveNameMissing => ReportSpec::RemoveNameMissing,
            WebdavReport::Replaced { name, permissions } => ReportSpec::Replaced {
                name: name@,
                permissions: permissions@,
            },
            WebdavReport::Created { name, permissions } => ReportSpec::Created {
                name: name@,
                permissions: permissions@,
            },
            WebdavReport::PermissionsSet { name, permissions } => ReportSpec::PermissionsSet {
                name: name@,
                permissions: permissions@,
            },
            WebdavReport::PasswordSet { name } => ReportSpec::PasswordSet { name: name@ },
            WebdavReport::InvalidCommand => ReportSpec::InvalidCommand,
            WebdavReport::Status => ReportSpec::Status,
        }
    }
}

impl WebdavReport {
    /// Whether the configuration is to be saved after this command: always,
    /// except where a permission string was refused.
    pub fn persists(&self) -> (save: bool)
        ensures
            save == !(self@ is InvalidPermissions),
    {
        match self {
            WebdavReport::InvalidPermissions => false,
            _ => true,
        }
    }
}

/// The state of the service after a command, and what is reported.
pub struct Effect {
    pub enabled: bool,
    pub users: Map<Seq<char>, UserSpec>,
    pub report: ReportSpec,
}

/// The state of the service and a report as an `Effect`.
pub open spec fn outcome(config: WebDavConfig, report: WebdavReport) -> Effect {
    Effect { enabled: config.enabled, users: config.users@, report: report@ }
}

/// The contents of an optional text.
pub open spec fn text_of(text: Option<&str>) -> Option<Seq<char>> {
    match text {
        Some(t) => Some(t@),
        None => None,
    }
}

/// The contents of the arguments.
pub open spec fn arg_views(args: Seq<String>) -> Seq<Seq<char>> {
    args.map_values(|a: String| a@)
}

/// The name in `name` or `name:permissions`.
pub open spec fn target_name(target: Seq<char>) -> Seq<char> {
    if target.contains(':') {
        split(target, ':')[0]
    } else {
        target
    }
}

/// The permissions in `name:permissions`, if there are any; where more
/// colons follow, what stands behind the second is left out.
pub open spec fn target_permissions(target: Seq<char>) -> Option<Seq<char>> {
    if target.contains(':') {
        Some(split(target, ':')[1])
    } else {
        None
    }
}

/// Adding a user: the permissions are `r` unless given; a user that exists
/// is left as it is.
pub open spec fn add_effect(
    enabled: bool,
    users: Map<Seq<char>, UserSpec>,
    target: Seq<char>,
    password: Seq<char>,
) -> Effect {
    let name = target_name(target);
    let permissions = match target_permissions(target) {
        Some(p) => p,
        None => seq!['r'],
    };
    if !valid_permissions(permissions) {
        Effect { enabled, users, report: ReportSpec::InvalidPermissions }
    } else if users.contains_key(name) {
        Effect { enabled, users, report: ReportSpec::AlreadyExists { name } }
    } else {
        Effect {
            enabled,
            users: users.insert(name, UserSpec { password, permissions }),
            report: ReportSpec::Added { name, password, permissions },
        }
    }
}

/// Changing a user: `name:permissions` sets the permissions, and with a
/// password creates the user where there is none; a bare name sets the
/// password.
pub open spec fn update_effect(
    enabled: bool,
    users: Map<Seq<char>, UserSpec>,
    target: Seq<char>,
    password: Option<Seq<char>>,
) -> Effect {
    let name = target_name(target);
    match target_permissions(target) {
        Some(permissions) => {
            if !valid_permissions(permissions) {
                Effect { enabled, users, report: ReportSpec::InvalidPermissions }
            } else {
                match password {
                    Some(password) => Effect {
                        enabled,
                        users: users.insert(name, UserSpec { password, permissions }),
                        report: if users.contains_key(name) {
                            ReportSpec::Replaced { name, permissions }
                        } else {
                            ReportSpec::Created { name, permissions }
                        },
                    },
                    None => if users.contains_key(name) {
                        Effect {
                            enabled,
                            users: users.insert(
                                name,
                                UserSpec { password: users[name].password, permissions },
                            ),
                            report: ReportSpec::PermissionsSet { name, permissions },
                        }
                    } else {
                        Effect { enabled, users, report: ReportSpec::NotFound { name } }
                    },
                }
            }
        },
        None => match password {
            Some(password) => if users.contains_key(name) {
                Effect {
                    enabled,
                    users: users.insert(
                        name,
                        UserSpec { password, permissions: users[name].permissions },
                    ),
                    report: ReportSpec::PasswordSet { name },
                }
            } else {
                Effect { enabled, users, report: ReportSpec::NotFound { name } }
            },
            None => Effect { enabled, users, report: ReportSpec::InvalidCommand },
        },
    }
}

/// What the command line `args` does to the service. The command is what
/// stands after the program's name and `--webdav`; `random` is the
/// password given to a user that is added without one.
pub open spec fn webdav_effect(
    enabled: bool,
    users: Map<Seq<char>, UserSpec>,
    args: Seq<Seq<char>>,
    random: Seq<char>,
) -> Effect {
    if args.len() <= 2 {
        Effect { enabled, users, report: ReportSpec::Status }
    } else if args[2] == "true"@ {
        Effect { enabled: true, users, report: ReportSpec::Enabled }
    } else if args[2] == "false"@ {
        Effect { enabled: false, users, report: ReportSpec::Disabled }
    } else if args[2] == "add"@ {
        if args.len() <= 3 {
            Effect { enabled, users, report: ReportSpec::NameMissing }
        } else {
            add_effect(
                enabled,
                users,
                args[3],
                if args.len() > 4 {
                    args[4]
                } else {
                    random
                },
            )
        }
    } else if args[2] == "del"@ {
        if args.len() <= 3 {
            Effect { enabled, users, report: ReportSpec::RemoveNameMissing }
        } else if users.contains_key(args[3]) {
            Effect { enabled, users: users.remove(args[3]), report: ReportSpec::Removed { name: args[3] } }
        } else {
            Effect { enabled, users, report: ReportSpec::NotFound { name: args[3] } }
        }
    } else {
        update_effect(
            enabled,
            users,
            args[2],
            if args.len() > 3 {
                Some(args[3])
            } else {
                None
            },
        )
    }
}

/// Whether the command needs a generated password: a user is added, and
/// no password was given.
pub open spec fn needs_password(users: Map<Seq<char>, UserSpec>, args: Seq<Seq<char>>) -> bool {
    args.len() == 4 && args[2] == "add"@ && add_effect(false, users, args[3], Seq::<char>::empty()).report is Added
}

/// Cuts `name:permissions` into its two parts, where there is a colon.
pub fn split_target(target: &str) -> (parts: (String, Option<String>))
    ensures
        parts.0@ == target_name(target@),
        match parts.1 {
            Some(p) => target_permissions(target@) == Some(p@),
            None => target_permissions(target@) is None,
        },
{
    let chars = chars_of(target);
    proof {
        lemma_count_char_contains(target@, ':');
        lemma_split_parts(target@, ':');
    }
    if contains_char(chars.as_slice(), ':') {
        let parts = split_chars(chars.as_slice(), ':');
        (string_of(parts[0].as_slice()), Some(string_of(parts[1].as_slice())))
    } else {
        (target.to_owned(), None)
    }
}

/// Adds a user.
fn add_user(config: &mut WebDavConfig, target: &str, password: &str) -> (report: WebdavReport)
    ensures
        outcome(*final(config), report) == add_effect(
            old(config).enabled,
            old(config).users@,
            target@,
            password@,
        ),
{
    let (name, given) = split_target(target);
    let permissions = match given {
        Some(p) => p,
        None => {
            proof {
                reveal_strlit("r");
                assert("r"@ =~= seq!['r']);
            }
            "r".to_owned()
        },
    };
    if !is_valid_permissions(permissions.as_str()) {
        WebdavReport::InvalidPermissions
    } else if config.users.contains_key(name.as_str()) {
        WebdavReport::AlreadyExists { name }
    } else {
        config.users.insert(name.as_str(), UserConfig::new(password, permissions.as_str()));
        WebdavReport::Added { name, password: password.to_owned(), permissions }
    }
}

/// Changes a user.
fn update_user(config: &mut WebDavConfig, target: &str, password: Option<&str>) -> (report:
    WebdavReport)
    ensures
        outcome(*final(config), report) == update_effect(
            old(config).enabled,
            old(config).users@,
            target@,
            text_of(password),
        ),
{
    let (name, given) = split_target(target);
    match given {
        Some(permissions) => {
            if !is_valid_permissions(permissions.as_str()) {
                return WebdavReport::InvalidPermissions;
            }
            match password {
                Some(password) => {
                    let previous = config.users.insert(
                        name.as_str(),
                        UserConfig::new(password, permissions.as_str()),
                    );
                    if previous.is_some() {
                        WebdavReport::Replaced { name, permissions }
                    } else {
                        WebdavReport::Created { name, permissions }
                    }
                },
                None => {
                    let kept = match config.users.get(name.as_str()) {
                        Some(user) => Some(user.password.clone()),
                        None => None,
                    };
                    match kept {
                        Some(kept) => {
                            config.users.insert(
                                name.as_str(),
                                UserConfig::new(kept.as_str(), permissions.as_str()),
                            );
                            WebdavReport::PermissionsSet { name, permissions }
                        },
                        None => WebdavReport::NotFound { name },
                    }
                },
            }
        },
        None => match password {
            Some(password) => {
                let kept = match config.users.get(name.as_str()) {
                    Some(user) => Some(user.permissions.clone()),
                    None => None,
                };
                match kept {
                    Some(kept) => {
                        config.users.insert(name.as_str(), UserConfig::new(password, kept.as_str()));
                        WebdavReport::PasswordSet { name }
                    },
                    None => WebdavReport::NotFound { name },
                }
            },
            None => WebdavReport::InvalidCommand,
        },
    }
}

/// Carries out the command line `args` on the WebDAV configuration, with
/// `random` as the password for a user added without one.
pub fn apply_webdav_command(config: &mut WebDavConfig, args: &[String], random: &str) -> (report:
    WebdavReport)
    ensures
        outcome(*final(config), report) == webdav_effect(
            old(config).enabled,
            old(config).users@,
            arg_views(args@),
            random@,
        ),
{
    if args.len() <= 2 {
        return WebdavReport::Status;
    }
    let command = args[2].as_str();
    assert(command@ == arg_views(args@)[2]);
    if str_eq(command, "true") {
        config.enabled = true;
        WebdavReport::Enabled
    } else if str_eq(command, "false") {
        config.enabled = false;
        WebdavReport::Disabled
    } else if str_eq(command, "add") {
        if args.len() <= 3 {
            WebdavReport::NameMissing
        } else {
            assert(args@[3]@ == arg_views(args@)[3]);
            if args.len() > 4 {
                assert(args@[4]@ == arg_views(args@)[4]);
                add_user(config, args[3].as_str(), args[4].as_str())
            } else {
                add_user(config, args[3].as_str(), random)
            }
        }
    } else if str_eq(command, "del") {
        if args.len() <= 3 {
            WebdavReport::RemoveNameMissing
        } else {
            assert(args@[3]@ == arg_views(args@)[3]);
            let name = args[3].clone();
            match config.users.remove(name.as_str()) {
                Some(_) => WebdavReport::Removed { name },
                None => {
                    assert(config.users@ =~= old(config).users@);
                    WebdavReport::NotFound { name }
                },
            }
        }
    } else if args.len() > 3 {
        assert(args@[3]@ == arg_views(args@)[3]);
        update_user(config, command, Some(args[3].as_str()))
    } else {
        update_user(config, command, None)
    }
}

/// Whether the command line `args` adds a user without giving a password.
pub fn wants_generated_password(users: &UserTable, args: &[String]) -> (wanted: bool)
    ensures
        wanted == needs_password(users@, arg_views(args@)),
{
    if args.len() != 4 {
        return false;
    }
    assert(args@[2]@ == arg_views(args@)[2]);
    assert(args@[3]@ == arg_views(args@)[3]);
    if !str_eq(args[2].as_str(), "add") {
        return false;
    }
    let (name, given) = split_target(args[3].as_str());
    let valid = match given {
        Some(p) => is_valid_permissions(p.as_str()),
        None => true,
    };
    valid && !users.contains_key(name.as_str())
}

/// Carries out the command line `args` on the WebDAV configuration. A
/// user that is added without a password gets a generated one.
pub fn run_webdav_command(config: &mut WebDavConfig, args: &[String]) -> (report: WebdavReport)
    ensures
        exists|random: Seq<char>|
            (needs_password(old(config).users@, arg_views(args@)) ==> is_generated(random))
                && outcome(*final(config), report) == #[trigger] webdav_effect(
                old(config).enabled,
                old(config).users@,
                arg_views(args@),
                random,
            ),
{
    let random = if wants_generated_password(&config.users, args) {
        generate_random_password()
    } else {
        String::new()
    };
    let report = apply_webdav_command(config, args, random.as_str());
    assert(outcome(*config, report) == webdav_effect(
        old(config).enabled,
        old(config).users@,
        arg_views(args@),
        random@,
    ));
    report
}

/// Whether every user of `users` has a permission string of `r`, `w`, `x`
/// only.
pub open spec fn all_permissions_valid(users: Map<Seq<char>, UserSpec>) -> bool {
    forall|name: Seq<char>| users.contains_key(name) ==> valid_permissions(#[trigger] users[name].permissions)
}

/// No command stores a permission string with a character other than `r`,
/// `w`, `x`: where every user had a valid one before, every user has a
/// valid one after; and a command whose permission string is refused
/// changes nothing.
pub proof fn lemma_commands_keep_permissions_valid(
    enabled: bool,
    users: Map<Seq<char>, UserSpec>,
    args: Seq<Seq<char>>,
    random: Seq<char>,
)
    requires
        all_permissions_valid(users),
    ensures
        all_permissions_valid(webdav_effect(enabled, users, args, random).users),
        webdav_effect(enabled, users, args, random).report is InvalidPermissions ==> webdav_effect(
            enabled,
            users,
            args,
            random,
        ).users == users && webdav_effect(enabled, users, args, random).enabled == enabled,
{
    let after = webdav_effect(enabled, users, args, random);
    assert forall|name: Seq<char>| after.users.contains_key(name) implies valid_permissions(
        #[trigger] after.users[name].permissions,
    ) by {
        if users.contains_key(name) {
            assert(valid_permissions(users[name].permissions));
        }
        if args.len() > 2 {
            let target = if args[2] == "add"@ && args.len() > 3 {
                args[3]
            } else {
                args[2]
            };
            if users.contains_key(target_name(target)) {
                assert(valid_permissions(users[target_name(target)].permissions));
            }
        }
    }
}

/// A password is drawn only for a user that is added without one: every
/// other command does the same whatever `random` holds.
pub proof fn lemma_random_matters_only_when_needed(
    enabled: bool,
    users: Map<Seq<char>, UserSpec>,
    args: Seq<Seq<char>>,
    first: Seq<char>,
    second: Seq<char>,
)
    requires
        !needs_password(users, args),
    ensures
        webdav_effect(enabled, users, args, first) == webdav_effect(enabled, users, args, second),
{
}

} // verus!
