//! From a message to a reply.
//!
//! A command is served in two steps with the store in between. `Bot::plan` reads the
//! message and decides: stay silent, reply at once, or ask the store. Whoever holds the
//! backend runs the request and hands the outcome to `Bot::conclude`, which words the
//! reply. `Bot::dispatch` does all of it against a store in memory.

use crate::command::{
    argument, lemma_call_is_parsed, parsed, Command, InvocationView, Router,
};
use crate::content::{Category, ContentLibrary, LibraryView};
use crate::registry::Registry;
use crate::reply::{
    bundle_view, failure_view, invalid_sign_view, no_content_view, not_set_view, pong_view,
    sign_deleted_view, sign_is_view, sign_set_view, uwu_view, Reply, ReplyView,
};
use crate::sign::{lemma_variants_normalize, normalize, Sign};
use crate::store::{
    answer, lemma_read_back, lookup, read_rows, stored_sign, table_after, MemoryStore, OutcomeView,
    StoreFault, StoreOutcome, StoreRequest,
};
use crate::text::{all_space, first_word, folded, has_prefix, is_space};
use vstd::prelude::*;

verus! {

/// The command that waits for the store.
#[derive(Clone, Copy, Debug, PartialEq, Eq, Structural)]
pub enum Pending {
    ShowSign,
    Content(Category),
    SetSign,
    DeleteMe,
}

/// What to do about a message.
#[derive(Clone, Debug, PartialEq, Eq)]
pub enum Plan {
    /// The message is no command: say nothing.
    Silent,
    /// Say this; the store is not needed.
    Respond(Reply),
    /// Put the request to the store and conclude with its outcome.
    Ask { request: StoreRequest, pending: Pending },
}

/// The mathematical form of a [`Plan`].
pub enum PlanView {
    Silent,
    Respond(ReplyView),
    Ask { request: StoreRequest, pending: Pending },
}

impl View for Plan {
    type V = PlanView;

    open spec fn view(&self) -> PlanView {
        match self {
            Plan::Silent => PlanView::Silent,
            Plan::Respond(reply) => PlanView::Respond(reply@),
            Plan::Ask { request, pending } => PlanView::Ask {
                request: *request,
                pending: *pending,
            },
        }
    }
}

/// What is to be done about the command of `user` in `invocation`.
pub open spec fn planned_for(
    library: LibraryView,
    user: u64,
    invocation: InvocationView,
) -> PlanView {
    match invocation.command {
        Command::Help => PlanView::Respond(bundle_view(library.help)),
        Command::Ping => PlanView::Respond(pong_view()),
        Command::Uwu => PlanView::Respond(uwu_view()),
        Command::ShowSign => PlanView::Ask {
            request: StoreRequest::Fetch { user },
            pending: Pending::ShowSign,
        },
        Command::Content(category) => PlanView::Ask {
            request: StoreRequest::Fetch { user },
            pending: Pending::Content(category),
        },
        Command::DeleteMe => PlanView::Ask {
            request: StoreRequest::Remove { user },
            pending: Pending::DeleteMe,
        },
        Command::SetSign => match Sign::normalized(invocation.rest) {
            Some(sign) => PlanView::Ask {
                request: StoreRequest::Upsert { user, sign },
                pending: Pending::SetSign,
            },
            None => PlanView::Respond(invalid_sign_view(invocation.rest)),
        },
    }
}

/// What is to be done about the message `raw` of `user`.
pub open spec fn planned(
    prefix: Seq<char>,
    library: LibraryView,
    user: u64,
    raw: Seq<char>,
) -> PlanView {
    match parsed(prefix, raw) {
        Some(invocation) => planned_for(library, user, invocation),
        None => PlanView::Silent,
    }
}

/// The reply to a command that read the sign of `user`, given what the rows of the read
/// mean.
pub open spec fn reply_to_read(
    prefix: Seq<char>,
    library: LibraryView,
    user: u64,
    pending: Pending,
    read: Result<Option<Sign>, StoreFault>,
) -> ReplyView {
    match read {
        Ok(Some(sign)) => match pending {
            Pending::Content(category) => match library.resolved(sign, category) {
                Ok(bundle) => bundle_view(bundle),
                Err(_) => no_content_view(user, sign, category),
            },
            _ => sign_is_view(user, sign),
        },
        Ok(None) => not_set_view(prefix, user),
        Err(_) => failure_view(user),
    }
}

/// The reply to the command `pending` of `user`, given what the store handed back.
pub open spec fn concluded(
    prefix: Seq<char>,
    library: LibraryView,
    user: u64,
    pending: Pending,
    outcome: OutcomeView,
) -> ReplyView {
    match pending {
        Pending::ShowSign | Pending::Content(_) => match outcome {
            OutcomeView::Rows(rows) => reply_to_read(
                prefix,
                library,
                user,
                pending,
                stored_sign(rows),
            ),
            _ => failure_view(user),
        },
        Pending::SetSign => match outcome {
            OutcomeView::Written => sign_set_view(user),
            _ => failure_view(user),
        },
        Pending::DeleteMe => match outcome {
            OutcomeView::Written => sign_deleted_view(user),
            _ => failure_view(user),
        },
    }
}

/// What a store with `table` behind a registry hands back for `request`: its answer while
/// the connection stands, `ConnectionLost` once it is gone.
pub open spec fn outcome_through(
    lost: bool,
    table: Map<u64, Sign>,
    request: StoreRequest,
) -> OutcomeView {
    if lost {
        OutcomeView::Failed(StoreFault::ConnectionLost)
    } else {
        answer(table, request)
    }
}

/// The reply that serving `plan` against the table gives, if any.
pub open spec fn served_reply(
    prefix: Seq<char>,
    library: LibraryView,
    lost: bool,
    table: Map<u64, Sign>,
    user: u64,
    plan: PlanView,
) -> Option<ReplyView> {
    match plan {
        PlanView::Silent => None,
        PlanView::Respond(reply) => Some(reply),
        PlanView::Ask { request, pending } => Some(
            concluded(prefix, library, user, pending, outcome_through(lost, table, request)),
        ),
    }
}

/// The table that serving `plan` leaves.
pub open spec fn served_table(lost: bool, table: Map<u64, Sign>, plan: PlanView) -> Map<u64, Sign> {
    match plan {
        PlanView::Ask { request, pending } => if lost {
            table
        } else {
            table_after(table, request)
        },
        _ => table,
    }
}

/// The mathematical form of a reply that may be absent.
pub open spec fn reply_view(reply: Option<Reply>) -> Option<ReplyView> {
    match reply {
        Some(reply) => Some(reply@),
        None => None,
    }
}

/// The bot: the router and the reference content.
pub struct Bot {
    pub router: Router,
    pub library: ContentLibrary,
}

impl Bot {
    /// A bot that answers to `prefix` and serves the content of `library`.
    pub fn new(prefix: String, library: ContentLibrary) -> (bot: Bot)
        ensures
            bot.router.prefix@ == prefix@,
            bot.library@ == library@,
    {
        Bot { router: Router::new(prefix), library }
    }

    /// Reads the message `raw` of `user` and decides what to do about it.
    ///
    /// A message without the prefix, or whose first word names no command, is passed over
    /// in silence. `help`, `ping` and `uwu` are answered at once, and so is `set` with text
    /// that names no sign: the reply quotes that text as it was typed. Every other command
    /// asks the store first.
    pub fn plan(&self, user: u64, raw: &str) -> (plan: Plan)
        ensures
            plan@ == planned(self.router.prefix@, self.library@, user, raw@),
    {
        match self.router.parse(raw) {
            None => Plan::Silent,
            Some(invocation) => match invocation.command {
                Command::Help => Plan::Respond(Reply::bundle(self.library.help())),
                Command::Ping => Plan::Respond(Reply::pong()),
                Command::Uwu => Plan::Respond(Reply::uwu()),
                Command::ShowSign => Plan::Ask {
                    request: StoreRequest::Fetch { user },
                    pending: Pending::ShowSign,
                },
                Command::Content(category) => Plan::Ask {
                    request: StoreRequest::Fetch { user },
                    pending: Pending::Content(category),
                },
                Command::DeleteMe => Plan::Ask {
                    request: StoreRequest::Remove { user },
                    pending: Pending::DeleteMe,
                },
                Command::SetSign => match normalize(invocation.rest.as_str()) {
                    Ok(sign) => Plan::Ask {
                        request: StoreRequest::Upsert { user, sign },
                        pending: Pending::SetSign,
                    },
                    Err(invalid) => Plan::Respond(Reply::invalid_sign(invalid.raw.as_str())),
                },
            },
        }
    }

    /// Words the reply to the command `pending` of `user` from what the store handed back.
    ///
    /// Whatever the store hands back, there is exactly one reply: the answer to the
    /// command where the store served it, the failure message where it did not.
    pub fn conclude(&self, user: u64, pending: Pending, outcome: &StoreOutcome) -> (reply: Reply)
        ensures
            reply@ == concluded(self.router.prefix@, self.library@, user, pending, outcome@),
    {
        match pending {
            Pending::ShowSign | Pending::Content(_) => match outcome {
                StoreOutcome::Rows(rows) => match read_rows(rows) {
                    Ok(Some(sign)) => match pending {
                        Pending::Content(category) => match self.library.resolve(sign, category) {
                            Ok(bundle) => Reply::bundle(bundle),
                            Err(_) => Reply::no_content(user, sign, category),
                        },
                        _ => Reply::sign_is(user, sign),
                    },
                    Ok(None) => Reply::not_set(self.router.prefix.as_str(), user),
                    Err(_) => Reply::failure(user),
                },
                _ => Reply::failure(user),
            },
            Pending::SetSign => match outcome {
                StoreOutcome::Written => Reply::sign_set(user),
                _ => Reply::failure(user),
            },
            Pending::DeleteMe => match outcome {
                StoreOutcome::Written => Reply::sign_deleted(user),
                _ => Reply::failure(user),
            },
        }
    }

    /// Serves the message `raw` of `user` against the store in memory behind `registry`.
    pub fn dispatch(&self, registry: &mut Registry<MemoryStore>, user: u64, raw: &str) -> (reply:
        Option<Reply>)
        ensures
            final(registry).lost_view() == old(registry).lost_view(),
            reply_view(reply) == served_reply(
                self.router.prefix@,
                self.library@,
                old(registry).lost_view(),
                old(registry).table(),
                user,
                planned(self.router.prefix@, self.library@, user, raw@),
            ),
            final(registry).table() == served_table(
                old(registry).lost_view(),
                old(registry).table(),
                planned(self.router.prefix@, self.library@, user, raw@),
            ),
    {
        match self.plan(user, raw) {
            Plan::Silent => None,
            Plan::Respond(reply) => Some(reply),
            Plan::Ask { request, pending } => {
                let outcome = registry.perform(&request);
                Some(self.conclude(user, pending, &outcome))
            },
        }
    }
}

/// A message whose first word after the prefix names no command gets no reply, not even
/// an error reply, and leaves the table alone. The same holds of a message without the
/// prefix.
pub proof fn lemma_unrecognized_is_silent(
    prefix: Seq<char>,
    library: LibraryView,
    lost: bool,
    table: Map<u64, Sign>,
    user: u64,
    raw: Seq<char>,
)
    requires
        !has_prefix(raw, prefix) || Command::named(
            folded(first_word(raw.skip(prefix.len() as int))),
        ) is None,
    ensures
        planned(prefix, library, user, raw) == PlanView::Silent,
        served_reply(prefix, library, lost, table, user, planned(prefix, library, user, raw))
            is None,
        served_table(lost, table, planned(prefix, library, user, raw)) == table,
{
}

/// `set` with text that names no sign is answered with the error reply and asks nothing of
/// the store: the record of the user stays as it was.
pub proof fn lemma_invalid_set_changes_nothing(
    prefix: Seq<char>,
    library: LibraryView,
    lost: bool,
    table: Map<u64, Sign>,
    user: u64,
    raw: Seq<char>,
)
    requires
        parsed(prefix, raw) matches Some(invocation) && invocation.command == Command::SetSign
            && Sign::normalized(invocation.rest) is None,
    ensures
        planned(prefix, library, user, raw) == PlanView::Respond(
            invalid_sign_view(parsed(prefix, raw)->0.rest),
        ),
        served_table(lost, table, planned(prefix, library, user, raw)) == table,
{
}

/// The life of a record. While the connection stands, serving a message of `user` moves
/// their record as the command says and no other way: a valid `set` binds the sign named,
/// `deleteme` unsets it, and every other message leaves it as it was. The records of other
/// users never move.
pub proof fn lemma_record_lifecycle(
    prefix: Seq<char>,
    library: LibraryView,
    table: Map<u64, Sign>,
    user: u64,
    raw: Seq<char>,
    other: u64,
)
    requires
        other != user,
    ensures
        ({
            let after = served_table(false, table, planned(prefix, library, user, raw));
            &&& lookup(after, other) == lookup(table, other)
            &&& lookup(after, user) == match parsed(prefix, raw) {
                Some(invocation) => match invocation.command {
                    Command::SetSign => match Sign::normalized(invocation.rest) {
                        Some(sign) => Some(sign),
                        None => lookup(table, user),
                    },
                    Command::DeleteMe => None,
                    _ => lookup(table, user),
                },
                None => lookup(table, user),
            }
        }),
{
}

/// What was set is what is shown. After a `set` that went through, a `sign` command of the
/// same user tells the sign that was set, and a content command shows what the library
/// resolves for that sign, or says that there is none.
pub proof fn lemma_set_then_read(
    prefix: Seq<char>,
    library: LibraryView,
    table: Map<u64, Sign>,
    user: u64,
    sign: Sign,
    pending: Pending,
)
    requires
        pending == Pending::ShowSign || pending is Content,
    ensures
        ({
            let set = PlanView::Ask {
                request: StoreRequest::Upsert { user, sign },
                pending: Pending::SetSign,
            };
            let read = PlanView::Ask { request: StoreRequest::Fetch { user }, pending };
            let after = served_table(false, table, set);
            &&& served_reply(prefix, library, false, table, user, set) == Some(
                sign_set_view(user),
            )
            &&& served_table(false, after, read) == after
            &&& served_reply(prefix, library, false, after, user, read) == Some(
                match pending {
                    Pending::Content(category) => match library.resolved(sign, category) {
                        Ok(bundle) => bundle_view(bundle),
                        Err(_) => no_content_view(user, sign, category),
                    },
                    _ => sign_is_view(user, sign),
                },
            )
        }),
{
    lemma_read_back(table.insert(user, sign), user);
}

/// After `deleteme` went through, a `sign` or content command of the same user gets the
/// guidance for users without a sign, whatever was on record before.
pub proof fn lemma_delete_then_read(
    prefix: Seq<char>,
    library: LibraryView,
    table: Map<u64, Sign>,
    user: u64,
    pending: Pending,
)
    requires
        pending == Pending::ShowSign || pending is Content,
    ensures
        ({
            let delete = PlanView::Ask {
                request: StoreRequest::Remove { user },
                pending: Pending::DeleteMe,
            };
            let read = PlanView::Ask { request: StoreRequest::Fetch { user }, pending };
            let after = served_table(false, table, delete);
            &&& served_reply(prefix, library, false, table, user, delete) == Some(
                sign_deleted_view(user),
            )
            &&& served_reply(prefix, library, false, after, user, read) == Some(
                not_set_view(prefix, user),
            )
        }),
{
    lemma_read_back(table.remove(user), user);
}

/// Once the connection is gone, every command that needs the store is answered with the
/// failure message, and no record moves.
pub proof fn lemma_lost_connection_fails(
    prefix: Seq<char>,
    library: LibraryView,
    table: Map<u64, Sign>,
    user: u64,
    raw: Seq<char>,
)
    ensures
        served_table(true, table, planned(prefix, library, user, raw)) == table,
        planned(prefix, library, user, raw) is Ask ==> served_reply(
            prefix,
            library,
            true,
            table,
            user,
            planned(prefix, library, user, raw),
        ) == Some(failure_view(user)),
{
}

/// Every spelling of a valid `set` is planned as a write. Take the prefix, any casing of
/// `set`, some whitespace, any casing of the name of a sign, and any whitespace after it:
/// the plan is to put that sign on record for the user.
pub proof fn lemma_set_call_is_planned(
    prefix: Seq<char>,
    library: LibraryView,
    user: u64,
    word: Seq<char>,
    before: Seq<char>,
    body: Seq<char>,
    after: Seq<char>,
    sign: Sign,
)
    requires
        folded(word) == Command::SetSign.word_view(),
        before.len() > 0,
        all_space(before),
        all_space(after),
        folded(body) == sign.name_view(),
    ensures
        planned(prefix, library, user, prefix + word + (before + body + after)) == (PlanView::Ask {
            request: StoreRequest::Upsert { user, sign },
            pending: Pending::SetSign,
        }),
{
    let rest = before + body + after;
    assert(rest[0] == before[0]);
    lemma_call_is_parsed(prefix, word, rest, Command::SetSign);
    let padding = before.skip(1);
    assert(argument(rest) =~= padding + body + after);
    assert forall|i: int| 0 <= i < padding.len() implies is_space(#[trigger] padding[i]) by {
        assert(padding[i] == before[i + 1]);
    }
    lemma_variants_normalize(sign, padding, body, after);
}

/// An invalid `set` is answered with the argument as it was typed. Take the prefix, any
/// casing of `set`, one whitespace character, and any text that names no sign: the plan is
/// the error reply that quotes that text, whitespace and case included, and the store is
/// not asked.
pub proof fn lemma_invalid_set_quotes_as_typed(
    prefix: Seq<char>,
    library: LibraryView,
    user: u64,
    word: Seq<char>,
    separator: char,
    typed: Seq<char>,
)
    requires
        folded(word) == Command::SetSign.word_view(),
        is_space(separator),
        Sign::normalized(typed) is None,
    ensures
        planned(prefix, library, user, prefix + word + (seq![separator] + typed))
            == PlanView::Respond(invalid_sign_view(typed)),
{
    let rest = seq![separator] + typed;
    assert(rest[0] == separator);
    lemma_call_is_parsed(prefix, word, rest, Command::SetSign);
    assert(argument(rest) =~= typed);
}

} // verus!
