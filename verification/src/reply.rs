//! What the bot says: the texts of its replies.

use crate::content::{BundleView, Category, ContentBundle};
use crate::sign::Sign;
use crate::text::{decimal_view, push_decimal};
use vstd::prelude::*;

verus! {

/// How a reply reaches the channel.
#[derive(Clone, Copy, Debug, PartialEq, Eq, Structural)]
pub enum Delivery {
    /// As an answer to the message of the user.
    Answer,
    /// As a plain message to the channel.
    Say,
}

/// One message of the bot.
#[derive(Clone, Debug, PartialEq, Eq)]
pub struct Reply {
    pub delivery: Delivery,
    pub text: String,
    pub image: Option<String>,
}

/// The mathematical form of a [`Reply`].
pub struct ReplyView {
    pub delivery: Delivery,
    pub text: Seq<char>,
    pub image: Option<Seq<char>>,
}

impl View for Reply {
    type V = ReplyView;

    open spec fn view(&self) -> ReplyView {
        ReplyView {
            delivery: self.delivery,
            text: self.text@,
            image: match self.image {
                Some(image) => Some(image@),
                None => None,
            },
        }
    }
}

/// The text that mentions `user`.
pub open spec fn mention_view(user: u64) -> Seq<char> {
    "<@"@ + decimal_view(user as nat) + ">"@
}

/// The reply that tells `user` their sign.
pub open spec fn sign_is_view(user: u64, sign: Sign) -> ReplyView {
    ReplyView {
        delivery: Delivery::Answer,
        text: mention_view(user) + " Your sign is "@ + sign.title_view() + "!"@,
        image: None,
    }
}

/// The reply that tells `user` that they have no sign on record, and how to set one.
pub open spec fn not_set_view(prefix: Seq<char>, user: u64) -> ReplyView {
    ReplyView {
        delivery: Delivery::Answer,
        text: mention_view(user) + " Your sign is not set! Set your sign with "@ + prefix
            + "set <Sign>"@,
        image: None,
    }
}

/// The reply to text that names no sign.
pub open spec fn invalid_sign_view(raw: Seq<char>) -> ReplyView {
    ReplyView {
        delivery: Delivery::Answer,
        text: raw + " is not a valid sign! Please enter a valid sign."@,
        image: None,
    }
}

/// The reply that confirms a new sign.
pub open spec fn sign_set_view(user: u64) -> ReplyView {
    ReplyView {
        delivery: Delivery::Say,
        text: mention_view(user) + " Your zodiac sign has been set!"@,
        image: None,
    }
}

/// The reply that confirms that the sign of `user` is forgotten.
pub open spec fn sign_deleted_view(user: u64) -> ReplyView {
    ReplyView {
        delivery: Delivery::Say,
        text: mention_view(user) + " Your zodiac sign has been deleted!"@,
        image: None,
    }
}

/// The reply to a command that the store could not serve.
pub open spec fn failure_view(user: u64) -> ReplyView {
    ReplyView {
        delivery: Delivery::Answer,
        text: mention_view(user) + " Something went wrong, please try again later."@,
        image: None,
    }
}

/// The reply where the library has no text for the sign and category asked for.
pub open spec fn no_content_view(user: u64, sign: Sign, category: Category) -> ReplyView {
    ReplyView {
        delivery: Delivery::Answer,
        text: mention_view(user) + " There is no "@ + category.word_view() + " content for "@
            + sign.title_view() + " yet."@,
        image: None,
    }
}

/// The reply that shows a bundle: its text, with its image.
pub open spec fn bundle_view(bundle: BundleView) -> ReplyView {
    ReplyView { delivery: Delivery::Say, text: bundle.text, image: Some(bundle.image) }
}

/// The reply to `ping`.
pub open spec fn pong_view() -> ReplyView {
    ReplyView { delivery: Delivery::Answer, text: "Pong!"@, image: None }
}

/// The reply to `uwu`.
pub open spec fn uwu_view() -> ReplyView {
    ReplyView { delivery: Delivery::Answer, text: "UwU"@, image: None }
}

/// A text that begins with the mention of `user`.
fn mention(user: u64) -> (text: String)
    ensures
        text@ == mention_view(user),
{
    let mut text = String::from_str("<@");
    push_decimal(&mut text, user);
    text.append(">");
    text
}

impl Reply {
    /// The reply that tells `user` their sign.
    pub fn sign_is(user: u64, sign: Sign) -> (reply: Reply)
        ensures
            reply@ == sign_is_view(user, sign),
    {
        let mut text = mention(user);
        text.append(" Your sign is ");
        text.append(sign.title());
        text.append("!");
        Reply { delivery: Delivery::Answer, text, image: None }
    }

    /// The reply that tells `user` that they have no sign on record, and how to set one.
    pub fn not_set(prefix: &str, user: u64) -> (reply: Reply)
        ensures
            reply@ == not_set_view(prefix@, user),
    {
        let mut text = mention(user);
        text.append(" Your sign is not set! Set your sign with ");
        text.append(prefix);
        text.append("set <Sign>");
        Reply { delivery: Delivery::Answer, text, image: None }
    }

    /// The reply to text that names no sign.
    pub fn invalid_sign(raw: &str) -> (reply: Reply)
        ensures
            reply@ == invalid_sign_view(raw@),
    {
        let mut text = String::from_str(raw);
        text.append(" is not a valid sign! Please enter a valid sign.");
        Reply { delivery: Delivery::Answer, text, image: None }
    }

    /// The reply that confirms a new sign.
    pub fn sign_set(user: u64) -> (reply: Reply)
        ensures
            reply@ == sign_set_view(user),
    {
        let mut text = mention(user);
        text.append(" Your zodiac sign has been set!");
        Reply { delivery: Delivery::Say, text, image: None }
    }

    /// The reply that confirms that the sign of `user` is forgotten.
    pub fn sign_deleted(user: u64) -> (reply: Reply)
        ensures
            reply@ == sign_deleted_view(user),
    {
        let mut text = mention(user);
        text.append(" Your zodiac sign has been deleted!");
        Reply { delivery: Delivery::Say, text, image: None }
    }

    /// The reply to a command that the store could not serve.
    pub fn failure(user: u64) -> (reply: Reply)
        ensures
            reply@ == failure_view(user),
    {
        let mut text = mention(user);
        text.append(" Something went wrong, please try again later.");
        Reply { delivery: Delivery::Answer, text, image: None }
    }

    /// The reply where the library has no text for the sign and category asked for.
    pub fn no_content(user: u64, sign: Sign, category: Category) -> (reply: Reply)
        ensures
            reply@ == no_content_view(user, sign, category),
    {
        let mut text = mention(user);
        text.append(" There is no ");
        text.append(category.word());
        text.append(" content for ");
        text.append(sign.title());
        text.append(" yet.");
        Reply { delivery: Delivery::Answer, text, image: None }
    }

    /// The reply that shows a bundle: its text, with its image.
    pub fn bundle(bundle: ContentBundle) -> (reply: Reply)
        ensures
            reply@ == bundle_view(bundle@),
    {
        Reply { delivery: Delivery::Say, text: bundle.text, image: Some(bundle.image) }
    }

    /// The reply to `ping`.
    pub fn pong() -> (reply: Reply)
        ensures
            reply@ == pong_view(),
    {
        Reply { delivery: Delivery::Answer, text: String::from_str("Pong!"), image: None }
    }

    /// The reply to `uwu`.
    pub fn uwu() -> (reply: Reply)
        ensures
            reply@ == uwu_view(),
    {
        Reply { delivery: Delivery::Answer, text: String::from_str("UwU"), image: None }
    }
}

} // verus!
