//! Whether Nix will accept what a builder signed.

use vstd::prelude::*;

use crate::collections::StrSet;
use crate::error::Error;
use crate::nix::commands;
use crate::nix::commands::{non_empty_line, non_empty_lines, SignedCacheImportTrust};
use crate::order;
use crate::text;
use crate::text::{
    chars_of, concat2, same_text, split_once_chars, string_of, trim_text, words_of,
};

verus! {

// ---------------------------------------------------------------------------
// Nix's configuration
// ---------------------------------------------------------------------------

/// The value that a line assigns to an option.
pub open spec fn assigned_value(line: Seq<char>, option: Seq<char>) -> Option<Seq<char>> {
    match text::split_once(line, '=') {
        Some((key, value)) => if text::trim(key) == option {
            Some(value)
        } else {
            None
        },
        None => None,
    }
}

/// The words that some line assigns to an option.
pub open spec fn assigned_words(lines: Seq<Seq<char>>, option: Seq<char>) -> Set<Seq<char>> {
    Set::new(
        |w: Seq<char>|
            exists|i: int|
                #![trigger lines[i]]
                0 <= i < lines.len() && (assigned_value(lines[i], option) matches Some(value)
                    && text::words(value).contains(w)),
    )
}

/// The words of the lines that assign nothing.
pub open spec fn bare_words(lines: Seq<Seq<char>>) -> Set<Seq<char>> {
    Set::new(
        |w: Seq<char>|
            exists|i: int|
                #![trigger lines[i]]
                0 <= i < lines.len() && text::split_once(lines[i], '=') is None && text::words(
                    lines[i],
                ).contains(w),
    )
}

pub open spec fn is_assigned(lines: Seq<Seq<char>>, option: Seq<char>) -> bool {
    exists|i: int| 0 <= i < lines.len() && assigned_value(#[trigger] lines[i], option) is Some
}

/// The values of an option in the output of `nix config show`: what is
/// assigned to it, or the bare lines where nothing is.
pub open spec fn config_values(output: Seq<char>, option: Seq<char>) -> Set<Seq<char>> {
    let lines = commands::said_lines(text::lines(output));
    if is_assigned(lines, option) {
        assigned_words(lines, option)
    } else {
        bare_words(lines)
    }
}

proof fn lemma_words_step(lines: Seq<Seq<char>>, option: Seq<char>, i: int)
    requires
        0 <= i < lines.len(),
    ensures
        assigned_words(lines.take(i + 1), option) == assigned_words(lines.take(i), option) + (
        match assigned_value(lines[i], option) {
            Some(value) => text::words(value).to_set(),
            None => Set::empty(),
        }),
        bare_words(lines.take(i + 1)) == bare_words(lines.take(i)) + (if text::split_once(
            lines[i],
            '=',
        ) is None {
            text::words(lines[i]).to_set()
        } else {
            Set::empty()
        }),
        is_assigned(lines.take(i + 1), option) == (is_assigned(lines.take(i), option)
            || assigned_value(lines[i], option) is Some),
{
    let longer = lines.take(i + 1);
    let shorter = lines.take(i);
    assert(longer[i] == lines[i]);
    assert forall|w: Seq<char>|
        assigned_words(longer, option).contains(w) == (assigned_words(shorter, option).contains(w)
            || (assigned_value(lines[i], option) matches Some(value) && text::words(
            value,
        ).contains(w))) by {
        if assigned_words(longer, option).contains(w) {
            let j = choose|j: int|
                #![trigger longer[j]]
                0 <= j < longer.len() && (assigned_value(longer[j], option) matches Some(value)
                    && text::words(value).contains(w));
            if j < i {
                assert(shorter[j] == longer[j]);
            }
        }
        if assigned_words(shorter, option).contains(w) {
            let j = choose|j: int|
                #![trigger shorter[j]]
                0 <= j < shorter.len() && (assigned_value(shorter[j], option) matches Some(value)
                    && text::words(value).contains(w));
            assert(longer[j] == shorter[j]);
        }
    }
    assert forall|w: Seq<char>|
        bare_words(longer).contains(w) == (bare_words(shorter).contains(w) || (text::split_once(
            lines[i],
            '=',
        ) is None && text::words(lines[i]).contains(w))) by {
        if bare_words(longer).contains(w) {
            let j = choose|j: int|
                #![trigger longer[j]]
                0 <= j < longer.len() && text::split_once(longer[j], '=') is None && text::words(
                    longer[j],
                ).contains(w);
            if j < i {
                assert(shorter[j] == longer[j]);
            }
        }
        if bare_words(shorter).contains(w) {
            let j = choose|j: int|
                #![trigger shorter[j]]
                0 <= j < shorter.len() && text::split_once(shorter[j], '=') is None && text::words(
                    shorter[j],
                ).contains(w);
            assert(longer[j] == shorter[j]);
        }
    }
    if is_assigned(longer, option) {
        let j = choose|j: int|
            0 <= j < longer.len() && assigned_value(#[trigger] longer[j], option) is Some;
        if j < i {
            assert(shorter[j] == longer[j]);
        }
    }
    if is_assigned(shorter, option) {
        let j = choose|j: int|
            0 <= j < shorter.len() && assigned_value(#[trigger] shorter[j], option) is Some;
        assert(longer[j] == shorter[j]);
    }
    assert(assigned_words(longer, option) =~= assigned_words(shorter, option) + (
    match assigned_value(lines[i], option) {
        Some(value) => text::words(value).to_set(),
        None => Set::empty(),
    }));
    assert(bare_words(longer) =~= bare_words(shorter) + (if text::split_once(
        lines[i],
        '=',
    ) is None {
        text::words(lines[i]).to_set()
    } else {
        Set::empty()
    }));
}

pub fn parse_nix_config_values(output: &str, option: &str) -> (r: StrSet)
    ensures
        r@.to_set() == config_values(output@, option@),
        order::ascending(r@),
{
    let lines: Vec<String> = non_empty_lines(output);
    let ghost all = text::texts(lines@);
    let mut values: StrSet = StrSet::new();
    let mut bare: StrSet = StrSet::new();
    let mut assigned: bool = false;
    let mut i: usize = 0;
    proof {
        assert(values@.to_set() =~= assigned_words(all.take(0), option@));
        assert(bare@.to_set() =~= bare_words(all.take(0)));
    }
    while i < lines.len()
        invariant
            i <= lines@.len(),
            all == text::texts(lines@),
            values@.to_set() == assigned_words(all.take(i as int), option@),
            bare@.to_set() == bare_words(all.take(i as int)),
            assigned == is_assigned(all.take(i as int), option@),
            order::ascending(values@),
            order::ascending(bare@),
        decreases lines@.len() - i,
    {
        let line: Vec<char> = chars_of(lines[i].as_str());
        proof {
            lemma_words_step(all, option@, i as int);
            assert(all[i as int] == line@);
        }
        match split_once_chars(line.as_slice(), '=') {
            Some((key, value)) => {
                if same_text(string_of(text::trim_chars(key)).as_str(), option) {
                    assigned = true;
                    let words: Vec<String> = words_of(value);
                    values.extend(words.as_slice());
                } else {
                    assert(values@.to_set() + Set::<Seq<char>>::empty() =~= values@.to_set());
                }
                assert(bare@.to_set() + Set::<Seq<char>>::empty() =~= bare@.to_set());
            },
            None => {
                let words: Vec<String> = words_of(line.as_slice());
                bare.extend(words.as_slice());
                assert(values@.to_set() + Set::<Seq<char>>::empty() =~= values@.to_set());
            },
        }
        i = i + 1;
    }
    assert(all.take(i as int) =~= all);
    if assigned {
        values
    } else {
        bare
    }
}

// ---------------------------------------------------------------------------
// Who is trusted
// ---------------------------------------------------------------------------

/// Whether `trusted-users` covers a user: all users, the user, or one of the
/// user's groups.
pub open spec fn users_allow(
    trusted_users: Set<Seq<char>>,
    user: Seq<char>,
    groups: Set<Seq<char>>,
) -> bool {
    ||| trusted_users.contains("*"@)
    ||| trusted_users.contains(user)
    ||| exists|group: Seq<char>|
        groups.contains(group) && trusted_users.contains(#[trigger] ("@"@ + group))
}

pub fn trusted_users_allow_user(trusted_users: &StrSet, user: &str, groups: &StrSet) -> (r: bool)
    ensures
        r == users_allow(trusted_users@.to_set(), user@, groups@.to_set()),
{
    if trusted_users.contains("*") || trusted_users.contains(user) {
        return true;
    }
    let list: &Vec<String> = groups.items();
    let mut i: usize = 0;
    while i < list.len()
        invariant
            i <= list@.len(),
            text::texts(list@) == groups@,
            forall|j: int|
                0 <= j < i ==> !trusted_users@.contains("@"@ + #[trigger] groups@[j]),
        decreases list@.len() - i,
    {
        assert(groups@[i as int] == list@[i as int]@);
        if trusted_users.contains(concat2("@", list[i].as_str()).as_str()) {
            assert(groups@.to_set().contains(groups@[i as int]));
            assert(trusted_users@.to_set().contains("@"@ + groups@[i as int]));
            return true;
        }
        i = i + 1;
    }
    proof {
        assert forall|group: Seq<char>| groups@.to_set().contains(group) implies !(
        trusted_users@.to_set().contains(#[trigger] ("@"@ + group))) by {
            let j = choose|j: int| 0 <= j < groups@.len() && groups@[j] == group;
            assert(!trusted_users@.contains("@"@ + groups@[j]));
        }
    }
    false
}

/// Whether Nix accepts an import that is signed with a key: the user is root
/// or trusted, or the key is.
pub open spec fn import_allowed(
    is_root: bool,
    user: Seq<char>,
    groups: Set<Seq<char>>,
    trusted_users: Set<Seq<char>>,
    trusted_public_keys: Set<Seq<char>>,
    public_key: Seq<char>,
) -> bool {
    ||| is_root
    ||| users_allow(trusted_users, user, groups)
    ||| trusted_public_keys.contains(text::trim(public_key))
}

pub fn signed_cache_import_allowed(
    is_root: bool,
    current_user: &str,
    current_groups: &StrSet,
    trusted_users: &StrSet,
    trusted_public_keys: &StrSet,
    public_key: &str,
) -> (r: bool)
    ensures
        r == import_allowed(
            is_root,
            current_user@,
            current_groups@.to_set(),
            trusted_users@.to_set(),
            trusted_public_keys@.to_set(),
            public_key@,
        ),
{
    is_root || trusted_users_allow_user(trusted_users, current_user, current_groups)
        || trusted_public_keys.contains(trim_text(public_key).as_str())
}

/// What has to be known of the machine to tell how an import is trusted, in
/// the order in which it is asked.
#[derive(Debug, Clone, Copy, PartialEq, Eq, Structural)]
pub enum TrustQuestion {
    UserId,
    UserName,
    GroupNames,
    TrustedUsers,
    TrustedPublicKeys,
}

/// What answers a question: a program, its arguments, and what is said where
/// it fails.
pub struct QuestionCommand {
    pub program: String,
    pub args: Vec<String>,
    pub purpose: String,
}

/// The view of what answers a question.
pub struct QuestionCommandView {
    pub program: Seq<char>,
    pub args: Seq<Seq<char>>,
    pub purpose: Seq<char>,
}

impl View for QuestionCommand {
    type V = QuestionCommandView;

    open spec fn view(&self) -> QuestionCommandView {
        QuestionCommandView {
            program: self.program@,
            args: text::texts(self.args@),
            purpose: self.purpose@,
        }
    }
}

pub open spec fn id_command(option: Seq<char>, purpose: Seq<char>) -> QuestionCommandView {
    QuestionCommandView { program: "id"@, args: seq![option], purpose }
}

pub open spec fn config_command(option: Seq<char>) -> QuestionCommandView {
    QuestionCommandView {
        program: "nix"@,
        args: seq!["config"@, "show"@, option],
        purpose: "read nix config "@ + option,
    }
}

/// The command that answers a question.
pub open spec fn answered_by(question: TrustQuestion) -> QuestionCommandView {
    match question {
        TrustQuestion::UserId => id_command("-u"@, "read current uid"@),
        TrustQuestion::UserName => id_command("-un"@, "read current user"@),
        TrustQuestion::GroupNames => id_command("-Gn"@, "read current groups"@),
        TrustQuestion::TrustedUsers => config_command("trusted-users"@),
        TrustQuestion::TrustedPublicKeys => config_command("trusted-public-keys"@),
    }
}

fn ask_id(option: &str, purpose: &str) -> (c: QuestionCommand)
    ensures
        c@ == id_command(option@, purpose@),
{
    let args: Vec<String> = text::strings_of(&[option]);
    assert(text::texts(args@) =~= seq![option@]);
    QuestionCommand { program: "id".to_string(), args, purpose: purpose.to_string() }
}

fn ask_config(option: &str) -> (c: QuestionCommand)
    ensures
        c@ == config_command(option@),
{
    let args: Vec<String> = text::strings_of(&["config", "show", option]);
    assert(text::texts(args@) =~= seq!["config"@, "show"@, option@]);
    QuestionCommand {
        program: "nix".to_string(),
        args,
        purpose: text::concat2("read nix config ", option),
    }
}

/// Tells what answers a question.
pub fn question_command(question: TrustQuestion) -> (c: QuestionCommand)
    ensures
        c@ == answered_by(question),
{
    match question {
        TrustQuestion::UserId => ask_id("-u", "read current uid"),
        TrustQuestion::UserName => ask_id("-un", "read current user"),
        TrustQuestion::GroupNames => ask_id("-Gn", "read current groups"),
        TrustQuestion::TrustedUsers => ask_config("trusted-users"),
        TrustQuestion::TrustedPublicKeys => ask_config("trusted-public-keys"),
    }
}

/// The next step of finding out how an import is trusted.
pub enum TrustStep {
    Ask(TrustQuestion),
    Trusted(SignedCacheImportTrust),
    Refused(Error),
}

/// The view of a step: an error by its messages.
pub enum TrustStepView {
    Ask(TrustQuestion),
    Trusted(SignedCacheImportTrust),
    Refused(Seq<Seq<char>>),
}

impl View for TrustStep {
    type V = TrustStepView;

    open spec fn view(&self) -> TrustStepView {
        match *self {
            TrustStep::Ask(question) => TrustStepView::Ask(question),
            TrustStep::Trusted(trust) => TrustStepView::Trusted(trust),
            TrustStep::Refused(e) => TrustStepView::Refused(e@),
        }
    }
}

/// What the user is told where nothing makes Nix accept the import.
pub open spec fn untrusted_message(user: Seq<char>, public_key: Seq<char>) -> Seq<char> {
    "Nix will reject this signed cache import.\n\nCurrent user: "@ + user + "\nBuilder key: "@
        + public_key
        + "\n\nThis user is not in nix.settings.trusted-users, and the builder key is not in nix.settings.trusted-public-keys.\n\nFix one of:\n  - add this user to nix.settings.trusted-users\n  - add the builder key to nix.settings.trusted-public-keys\n  - enable services.drv-thru.client.ticketHelper and add this user to its group"@
}

/// The next step after the answers so far: the outputs of `id -u`, `id -un`,
/// `id -Gn`, and of `nix config show` for the two options.
pub open spec fn trust_decision(public_key: Seq<char>, answers: Seq<Seq<char>>) -> TrustStepView {
    let key = text::trim(public_key);
    let user = text::trim(answers[1]);
    if key.len() == 0 {
        TrustStepView::Refused(seq!["trusted public key is empty"@])
    } else if answers.len() == 0 {
        TrustStepView::Ask(TrustQuestion::UserId)
    } else if text::trim(answers[0]) == "0"@ {
        TrustStepView::Trusted(SignedCacheImportTrust::CanPassPublicKey)
    } else if answers.len() == 1 {
        TrustStepView::Ask(TrustQuestion::UserName)
    } else if user.len() == 0 {
        TrustStepView::Refused(seq!["current user name is empty"@])
    } else if answers.len() == 2 {
        TrustStepView::Ask(TrustQuestion::GroupNames)
    } else if answers.len() == 3 {
        TrustStepView::Ask(TrustQuestion::TrustedUsers)
    } else if users_allow(
        config_values(answers[3], "trusted-users"@),
        user,
        text::words(answers[2]).to_set(),
    ) {
        TrustStepView::Trusted(SignedCacheImportTrust::CanPassPublicKey)
    } else if answers.len() == 4 {
        TrustStepView::Ask(TrustQuestion::TrustedPublicKeys)
    } else if config_values(answers[4], "trusted-public-keys"@).contains(key) {
        TrustStepView::Trusted(SignedCacheImportTrust::KeyAlreadyTrusted)
    } else {
        TrustStepView::Refused(seq![untrusted_message(user, key)])
    }
}

/// The next step of finding out how an import signed with a key is trusted,
/// after the answers to the questions so far.
pub fn signed_cache_import_trust(public_key: &str, answers: &[String]) -> (r: TrustStep)
    ensures
        r@ == trust_decision(public_key@, text::texts(answers@)),
{
    let ghost said = text::texts(answers@);
    let key: String = match non_empty_line(public_key) {
        Some(key) => key,
        None => {
            return TrustStep::Refused(Error::of("trusted public key is empty"));
        },
    };
    if answers.len() == 0 {
        return TrustStep::Ask(TrustQuestion::UserId);
    }
    assert(said[0] == answers@[0]@);
    if same_text(trim_text(answers[0].as_str()).as_str(), "0") {
        return TrustStep::Trusted(SignedCacheImportTrust::CanPassPublicKey);
    }
    if answers.len() == 1 {
        return TrustStep::Ask(TrustQuestion::UserName);
    }
    assert(said[1] == answers@[1]@);
    let user: String = match non_empty_line(answers[1].as_str()) {
        Some(user) => user,
        None => {
            return TrustStep::Refused(Error::of("current user name is empty"));
        },
    };
    if answers.len() == 2 {
        return TrustStep::Ask(TrustQuestion::GroupNames);
    }
    if answers.len() == 3 {
        return TrustStep::Ask(TrustQuestion::TrustedUsers);
    }
    assert(said[2] == answers@[2]@);
    assert(said[3] == answers@[3]@);
    let group_chars: Vec<char> = chars_of(answers[2].as_str());
    let group_words: Vec<String> = words_of(group_chars.as_slice());
    let mut groups: StrSet = StrSet::new();
    groups.extend(group_words.as_slice());
    proof {
        assert(Seq::<Seq<char>>::empty().to_set() + text::words(said[2]).to_set() =~= text::words(
            said[2],
        ).to_set());
    }
    let trusted_users: StrSet = parse_nix_config_values(answers[3].as_str(), "trusted-users");
    if trusted_users_allow_user(&trusted_users, user.as_str(), &groups) {
        return TrustStep::Trusted(SignedCacheImportTrust::CanPassPublicKey);
    }
    if answers.len() == 4 {
        return TrustStep::Ask(TrustQuestion::TrustedPublicKeys);
    }
    assert(said[4] == answers@[4]@);
    let trusted_keys: StrSet = parse_nix_config_values(answers[4].as_str(), "trusted-public-keys");
    if trusted_keys.contains(key.as_str()) {
        return TrustStep::Trusted(SignedCacheImportTrust::KeyAlreadyTrusted);
    }
    let mut message: String = concat2(
        "Nix will reject this signed cache import.\n\nCurrent user: ",
        user.as_str(),
    );
    message.append("\nBuilder key: ");
    message.append(key.as_str());
    message.append(
        "\n\nThis user is not in nix.settings.trusted-users, and the builder key is not in nix.settings.trusted-public-keys.\n\nFix one of:\n  - add this user to nix.settings.trusted-users\n  - add the builder key to nix.settings.trusted-public-keys\n  - enable services.drv-thru.client.ticketHelper and add this user to its group",
    );
    TrustStep::Refused(Error::new(message))
}

/// Once every question is answered, an import is trusted exactly where Nix
/// accepts it.
pub proof fn law_trust_is_what_nix_accepts(public_key: Seq<char>, answers: Seq<Seq<char>>)
    requires
        answers.len() == 5,
        text::trim(public_key).len() > 0,
        text::trim(answers[1]).len() > 0,
    ensures
        (trust_decision(public_key, answers) is Trusted) == import_allowed(
            text::trim(answers[0]) == "0"@,
            text::trim(answers[1]),
            text::words(answers[2]).to_set(),
            config_values(answers[3], "trusted-users"@),
            config_values(answers[4], "trusted-public-keys"@),
            public_key,
        ),
        trust_decision(public_key, answers) !is Ask,
{
}

/// Later answers change no decision: what is trusted or refused after some
/// answers stays so, and a question is asked only where its answer is next.
pub proof fn law_trust_decision_stands(public_key: Seq<char>, answers: Seq<Seq<char>>, n: int)
    requires
        0 <= n <= answers.len() <= 5,
    ensures
        trust_decision(public_key, answers.take(n)) !is Ask ==> trust_decision(public_key, answers)
            == trust_decision(public_key, answers.take(n)),
        answers.len() == 5 ==> trust_decision(public_key, answers) !is Ask,
{
    let fewer = answers.take(n);
    assert forall|i: int| 0 <= i < n implies fewer[i] == answers[i] by {}
}

/// The user, the groups and the settings are asked of the programs that know
/// them.
pub proof fn law_questions_go_to_those_who_know()
    ensures
        answered_by(TrustQuestion::UserId).program == "id"@,
        answered_by(TrustQuestion::UserId).args == seq!["-u"@],
        answered_by(TrustQuestion::UserName).program == "id"@,
        answered_by(TrustQuestion::UserName).args == seq!["-un"@],
        answered_by(TrustQuestion::GroupNames).program == "id"@,
        answered_by(TrustQuestion::GroupNames).args == seq!["-Gn"@],
        answered_by(TrustQuestion::TrustedUsers).program == "nix"@,
        answered_by(TrustQuestion::TrustedUsers).args == seq![
            "config"@,
            "show"@,
            "trusted-users"@,
        ],
        answered_by(TrustQuestion::TrustedPublicKeys).program == "nix"@,
        answered_by(TrustQuestion::TrustedPublicKeys).args == seq![
            "config"@,
            "show"@,
            "trusted-public-keys"@,
        ],
        answered_by(TrustQuestion::UserId).purpose == "read current uid"@,
        answered_by(TrustQuestion::UserName).purpose == "read current user"@,
        answered_by(TrustQuestion::GroupNames).purpose == "read current groups"@,
        answered_by(TrustQuestion::TrustedUsers).purpose == "read nix config "@
            + "trusted-users"@,
        answered_by(TrustQuestion::TrustedPublicKeys).purpose == "read nix config "@
            + "trusted-public-keys"@,
{
}

/// A user is trusted exactly where all users are, where the user is named, or
/// where one of the user's groups is named behind an `@`.
pub proof fn law_who_is_trusted(
    trusted_users: Set<Seq<char>>,
    user: Seq<char>,
    groups: Set<Seq<char>>,
    group: Seq<char>,
)
    ensures
        trusted_users.contains("*"@) ==> users_allow(trusted_users, user, groups),
        trusted_users.contains(user) ==> users_allow(trusted_users, user, groups),
        groups.contains(group) && trusted_users.contains("@"@ + group) ==> users_allow(
            trusted_users,
            user,
            groups,
        ),
        trusted_users.len() == 0 && trusted_users.finite() ==> !users_allow(
            trusted_users,
            user,
            groups,
        ),
        users_allow(trusted_users, user, Set::empty()) ==> trusted_users.contains("*"@)
            || trusted_users.contains(user),
{
}

/// A setting that Nix shows as a name, an equals sign and words is read as
/// these words. Words alone are read as they are.
pub proof fn law_settings_are_read(option: Seq<char>, list: Seq<Seq<char>>)
    requires
        option.len() > 0,
        forall|i: int| 0 <= i < option.len() ==> option[i] != '=' && !text::is_space(
            #[trigger] option[i],
        ),
        list.len() > 0,
        forall|i: int|
            0 <= i < list.len() ==> (#[trigger] list[i]).len() > 0 && forall|j: int|
                0 <= j < list[i].len() ==> !text::is_space(#[trigger] list[i][j]),
    ensures
        config_values(text::printed(seq![option + " = "@ + text::spaced(list)]), option)
            == list.to_set(),
        !text::spaced(list).contains('=') ==> config_values(
            text::printed(seq![text::spaced(list)]),
            option,
        ) == list.to_set(),
{
    reveal_strlit(" = ");
    let words = text::spaced(list);
    let line = option + " = "@ + words;
    assert(words.len() > 0) by {
        assert(list[0].len() > 0);
    }
    text::law_words_are_found(list);
    lemma_words_make_a_line(list);
    assert(list.last() == list[list.len() - 1]);
    assert forall|i: int| 0 <= i < line.len() implies line[i] != '\n' by {
        if i < option.len() {
            assert(line[i] == option[i]);
        } else if i >= option.len() + 3 {
            assert(line[i] == words[i - option.len() - 3]);
        }
    }
    assert(line.last() == words.last());
    assert(line[0] == option[0]);
    lemma_one_line(line);
    let n = option.len() as int;
    assert forall|j: int| 0 <= j < n + 1 implies line[j] != '=' by {
        if j < n {
            assert(line[j] == option[j]);
        }
    }
    assert(line[n + 1] == " = "@[1]);
    text::lemma_find_is(line, '=', n + 1);
    assert(line.take(n + 1) =~= Seq::<char>::empty() + option + seq![' ']);
    assert(option.last() == option[n - 1]);
    text::law_space_around_is_dropped(Seq::empty(), option, seq![' ']);
    assert(line.skip(n + 2) =~= seq![' '] + words);
    text::law_leading_space_holds_no_words(seq![' '], words);
    assert(assigned_value(line, option) == Some(seq![' '] + words));
    let shown = seq![line];
    assert(shown[0] == line);
    assert(is_assigned(shown, option));
    assert(assigned_words(shown, option) =~= list.to_set());
    if !words.contains('=') {
        lemma_one_line(words);
        text::lemma_find(words, '=');
        if text::find(words, '=') < words.len() {
            assert(words[text::find(words, '=')] == '=');
        }
        let bare = seq![words];
        assert(bare[0] == words);
        assert(text::split_once(words, '=') is None);
        if is_assigned(bare, option) {
            let i = choose|i: int|
                0 <= i < bare.len() && assigned_value(#[trigger] bare[i], option) is Some;
            assert(bare[i] == words);
        }
        assert(bare_words(bare) =~= list.to_set());
    }
}

/// Words that a space separates stand on one line, which neither begins nor ends
/// with white space.
proof fn lemma_words_make_a_line(list: Seq<Seq<char>>)
    requires
        list.len() > 0,
        forall|i: int|
            0 <= i < list.len() ==> (#[trigger] list[i]).len() > 0 && forall|j: int|
                0 <= j < list[i].len() ==> !text::is_space(#[trigger] list[i][j]),
    ensures
        text::spaced(list).len() > 0,
        forall|i: int| 0 <= i < text::spaced(list).len() ==> text::spaced(list)[i] != '\n',
        !text::is_space(text::spaced(list)[0]),
        !text::is_space(text::spaced(list).last()),
{
    let words = text::spaced(list);
    assert(list[0].len() > 0);
    assert(words[0] == list[0][0]);
    assert(!text::is_space(list[0][0]));
    text::lemma_spaced_shape(list, 0);
    let last = list[list.len() - 1];
    assert(last.len() > 0);
    assert(!text::is_space(list[list.len() - 1][last.len() - 1]));
    assert forall|i: int| 0 <= i < words.len() implies words[i] != '\n' by {
        text::lemma_spaced_shape(list, i);
        if words[i] != ' ' {
            let (k, j) = choose|k: int, j: int|
                #![trigger list[k][j]]
                0 <= k < list.len() && 0 <= j < list[k].len() && list[k][j] == words[i];
            assert(!text::is_space(list[k][j]));
        }
    }
}

/// A line that neither begins nor ends with white space is read as it is.
proof fn lemma_one_line(line: Seq<char>)
    requires
        line.len() > 0,
        forall|i: int| 0 <= i < line.len() ==> line[i] != '\n',
        !text::is_space(line[0]),
        !text::is_space(line.last()),
    ensures
        commands::said_lines(text::lines(text::printed(seq![line]))) == seq![line],
{
    let list = seq![line];
    assert(list[0] == line);
    if line.contains('\n') {
        let i = choose|i: int| 0 <= i < line.len() && line[i] == '\n';
        assert(line[i] != '\n');
    }
    text::law_lines_are_read_back(list);
    text::law_space_around_is_dropped(Seq::empty(), line, Seq::empty());
    assert(Seq::<char>::empty() + line + Seq::<char>::empty() =~= line);
    assert(list.drop_last() =~= Seq::<Seq<char>>::empty());
    assert(list.last() == line);
    reveal_with_fuel(commands::said_lines, 2);
    assert(commands::said_lines(list) =~= list);
}

/// The questions are asked in turn: who the user is, then the user's groups,
/// then what Nix is set to, and none that the answers so far make needless.
pub proof fn law_questions_are_asked_in_turn(public_key: Seq<char>, answers: Seq<Seq<char>>)
    requires
        text::trim(public_key).len() > 0,
        answers.len() <= 4,
        answers.len() >= 1 ==> text::trim(answers[0]) != "0"@,
        answers.len() >= 2 ==> text::trim(answers[1]).len() > 0,
        answers.len() == 4 ==> !users_allow(
            config_values(answers[3], "trusted-users"@),
            text::trim(answers[1]),
            text::words(answers[2]).to_set(),
        ),
    ensures
        trust_decision(public_key, answers) == TrustStepView::Ask(
            if answers.len() == 0 {
                TrustQuestion::UserId
            } else if answers.len() == 1 {
                TrustQuestion::UserName
            } else if answers.len() == 2 {
                TrustQuestion::GroupNames
            } else if answers.len() == 3 {
                TrustQuestion::TrustedUsers
            } else {
                TrustQuestion::TrustedPublicKeys
            },
        ),
{
}

/// Root and a user whom Nix trusts can pass the builder's key along. Another
/// user can import where Nix trusts the key already, and is otherwise told what
/// would help. Without a key or a name nothing is decided.
pub proof fn law_how_imports_are_trusted(public_key: Seq<char>, answers: Seq<Seq<char>>)
    requires
        answers.len() == 5,
    ensures
        text::trim(public_key).len() == 0 ==> trust_decision(public_key, answers)
            == TrustStepView::Refused(seq!["trusted public key is empty"@]),
        text::trim(public_key).len() > 0 ==> {
            let step = trust_decision(public_key, answers);
            let user = text::trim(answers[1]);
            let is_root = text::trim(answers[0]) == "0"@;
            let is_trusted = users_allow(
                config_values(answers[3], "trusted-users"@),
                user,
                text::words(answers[2]).to_set(),
            );
            let key_is_trusted = config_values(answers[4], "trusted-public-keys"@).contains(
                text::trim(public_key),
            );
            &&& is_root ==> step == TrustStepView::Trusted(SignedCacheImportTrust::CanPassPublicKey)
            &&& !is_root && user.len() == 0 ==> step == TrustStepView::Refused(
                seq!["current user name is empty"@],
            )
            &&& user.len() > 0 && is_trusted ==> step == TrustStepView::Trusted(
                SignedCacheImportTrust::CanPassPublicKey,
            )
            &&& !is_root && user.len() > 0 && !is_trusted && key_is_trusted ==> step
                == TrustStepView::Trusted(SignedCacheImportTrust::KeyAlreadyTrusted)
            &&& !is_root && user.len() > 0 && !is_trusted && !key_is_trusted ==> step
                == TrustStepView::Refused(
                seq!["Nix will reject this signed cache import.\n\nCurrent user: "@ + user
                    + "\nBuilder key: "@ + text::trim(public_key)
                    + "\n\nThis user is not in nix.settings.trusted-users, and the builder key is not in nix.settings.trusted-public-keys.\n\nFix one of:\n  - add this user to nix.settings.trusted-users\n  - add the builder key to nix.settings.trusted-public-keys\n  - enable services.drv-thru.client.ticketHelper and add this user to its group"@],
            )
        },
{
}

} // verus!
