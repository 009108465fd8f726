//! Making a signing key, turn by turn: what is done next with its file and its
//! record, given what came of it so far.

use vstd::prelude::*;

use crate::error;
use crate::error::{invalid, CoreError, CoreErrorView};
use crate::model::{SigningKeyMeta, SigningKeyMetaView};
use crate::rs256;
use crate::rs256::admin;
use crate::rs256::admin::{check_name, check_request, key_file, new_key_meta};
use crate::rs256::keys;
use crate::rs256::keys::{SigningKey, SigningKeyView};
use crate::rs256::{to_core_invalid, Error, ErrorView};

verus! {

/// What is to be done next.
#[derive(Debug, PartialEq, Eq)]
pub enum KeyAction {
    /// Look up what is recorded under this name.
    Find(String),
    /// Write a private key to the file of this name, which must not be there yet.
    Write { file: String, pem: String },
    /// Record a key.
    Record(SigningKeyMeta),
    /// Remove the file at this path.
    Remove(String),
}

/// The view of [`KeyAction`].
pub enum KeyActionView {
    Find(Seq<char>),
    Write { file: Seq<char>, pem: Seq<char> },
    Record(SigningKeyMetaView),
    Remove(Seq<char>),
}

impl View for KeyAction {
    type V = KeyActionView;

    open spec fn view(&self) -> KeyActionView {
        match self {
            KeyAction::Find(kid) => KeyActionView::Find(kid@),
            KeyAction::Write { file, pem } => KeyActionView::Write { file: file@, pem: pem@ },
            KeyAction::Record(meta) => KeyActionView::Record(meta@),
            KeyAction::Remove(path) => KeyActionView::Remove(path@),
        }
    }
}

/// What came of it.
pub enum KeyEvent {
    /// What is recorded under the name.
    Found(Result<SigningKeyMeta, CoreError>),
    /// The path of the file that was written.
    Written(Result<String, Error>),
    /// What was recorded.
    Recorded(Result<SigningKeyMeta, CoreError>),
    /// The file was removed, as far as that was possible.
    Removed,
}

/// The view of [`KeyEvent`].
pub enum KeyEventView {
    Found(Result<SigningKeyMetaView, CoreErrorView>),
    Written(Result<Seq<char>, ErrorView>),
    Recorded(Result<SigningKeyMetaView, CoreErrorView>),
    Removed,
}

impl View for KeyEvent {
    type V = KeyEventView;

    open spec fn view(&self) -> KeyEventView {
        match self {
            KeyEvent::Found(found) => KeyEventView::Found(error::outcome(*found)),
            KeyEvent::Written(path) => KeyEventView::Written(rs256::outcome(*path)),
            KeyEvent::Recorded(meta) => KeyEventView::Recorded(error::outcome(*meta)),
            KeyEvent::Removed => KeyEventView::Removed,
        }
    }
}

/// How far it is.
pub enum KeyState {
    /// The name is being looked up, for a key of this size.
    Naming { kid: String, bits: u32 },
    /// The key is being written.
    Writing(SigningKey),
    /// The key is being recorded; it was written to this path.
    Recording(String),
    /// The file is being removed, since the key could not be recorded.
    Removing(CoreError),
}

/// The view of [`KeyState`].
pub enum KeyStateView {
    Naming { kid: Seq<char>, bits: u32 },
    Writing(SigningKeyView),
    Recording(Seq<char>),
    Removing(CoreErrorView),
}

impl View for KeyState {
    type V = KeyStateView;

    open spec fn view(&self) -> KeyStateView {
        match self {
            KeyState::Naming { kid, bits } => KeyStateView::Naming { kid: kid@, bits: *bits },
            KeyState::Writing(key) => KeyStateView::Writing(key@),
            KeyState::Recording(path) => KeyStateView::Recording(path@),
            KeyState::Removing(e) => KeyStateView::Removing(e@),
        }
    }
}

/// What follows.
pub enum KeyTurn {
    /// There is more to do.
    Ask(KeyState, KeyAction),
    /// There is a new key, and this is recorded of it.
    Finish(SigningKeyMeta),
    /// There is no new key.
    Refuse(CoreError),
}

/// The view of [`KeyTurn`].
pub enum KeyTurnView {
    Ask(KeyStateView, KeyActionView),
    Finish(SigningKeyMetaView),
    Refuse(CoreErrorView),
}

impl View for KeyTurn {
    type V = KeyTurnView;

    open spec fn view(&self) -> KeyTurnView {
        match self {
            KeyTurn::Ask(s, a) => KeyTurnView::Ask(s@, a@),
            KeyTurn::Finish(meta) => KeyTurnView::Finish(meta@),
            KeyTurn::Refuse(e) => KeyTurnView::Refuse(e@),
        }
    }
}

/// The refusal for an error of the key itself.
pub open spec fn refusal(e: ErrorView) -> KeyTurnView {
    KeyTurnView::Refuse(CoreErrorView::InvalidArgument(rs256::message_of(e)))
}

/// The first turn: the name of the key is looked up, if it may be asked for.
pub open spec fn first_turn(kid: Seq<char>, alg: Seq<char>, bits: u32) -> KeyTurnView {
    match admin::request_objection(kid, alg) {
        Some(e) => KeyTurnView::Refuse(e),
        None => KeyTurnView::Ask(KeyStateView::Naming { kid, bits }, KeyActionView::Find(kid)),
    }
}

/// The turn once a key was made: it is written to its file.
pub open spec fn made_turn(made: Result<SigningKeyView, ErrorView>) -> KeyTurnView {
    match made {
        Err(e) => refusal(e),
        Ok(key) => match keys::pkcs8_pem(key.der) {
            Err(why) => refusal(ErrorView::Crypto("marshal private key: "@ + why)),
            Ok(pem) => KeyTurnView::Ask(
                KeyStateView::Writing(key),
                KeyActionView::Write { file: key.kid + ".pem"@, pem },
            ),
        },
    }
}

/// Whether `made` is what making a key of that name and size can come to.
pub open spec fn may_be_made(
    made: Result<SigningKeyView, ErrorView>,
    kid: Seq<char>,
    bits: u32,
) -> bool {
    match made {
        Ok(key) => {
            &&& kid.len() > 0
            &&& key == SigningKeyView::of(kid, key.der)
            &&& key.modulus.len() == (keys::key_bits(bits) + 7) / 8
        },
        Err(e) => if kid.len() == 0 {
            e == ErrorView::MissingKid
        } else {
            e is Crypto
        },
    }
}

/// The turn after an answer. `made` is what making the key comes to, where one is
/// made. An answer to another question than the one that was asked ends it.
pub open spec fn turn(
    state: KeyStateView,
    event: KeyEventView,
    made: Result<SigningKeyView, ErrorView>,
) -> KeyTurnView {
    match (state, event) {
        (KeyStateView::Naming { kid, bits }, KeyEventView::Found(found)) => {
            match admin::name_objection(kid, found) {
                Some(e) => KeyTurnView::Refuse(e),
                None => made_turn(made),
            }
        },
        (KeyStateView::Writing(key), KeyEventView::Written(written)) => match written {
            Err(e) => refusal(e),
            Ok(path) => KeyTurnView::Ask(
                KeyStateView::Recording(path),
                KeyActionView::Record(admin::new_key_record(key, path)),
            ),
        },
        (KeyStateView::Recording(path), KeyEventView::Recorded(recorded)) => match recorded {
            Ok(meta) => KeyTurnView::Finish(meta),
            Err(e) => KeyTurnView::Ask(KeyStateView::Removing(e), KeyActionView::Remove(path)),
        },
        (KeyStateView::Removing(e), KeyEventView::Removed) => KeyTurnView::Refuse(e),
        _ => KeyTurnView::Refuse(
            CoreErrorView::InvalidArgument("signing key: unexpected answer"@),
        ),
    }
}

/// Begins to make a key.
pub fn begin_key(kid: &str, alg: &str, bits: u32) -> (r: KeyTurn)
    ensures
        r@ == first_turn(kid@, alg@, bits),
{
    match check_request(kid, alg) {
        Err(e) => KeyTurn::Refuse(e),
        Ok(()) => KeyTurn::Ask(
            KeyState::Naming { kid: kid.to_owned(), bits },
            KeyAction::Find(kid.to_owned()),
        ),
    }
}

/// Takes the key that was made.
pub fn key_made(made: Result<SigningKey, Error>) -> (r: KeyTurn)
    ensures
        r@ == made_turn(rs256::outcome(made)),
{
    match made {
        Err(e) => KeyTurn::Refuse(to_core_invalid(e)),
        Ok(key) => match key.private_pem() {
            Err(e) => KeyTurn::Refuse(to_core_invalid(e)),
            Ok(pem) => {
                let file = key_file(key.kid());
                KeyTurn::Ask(KeyState::Writing(key), KeyAction::Write { file, pem })
            },
        },
    }
}

/// Takes an answer. Once the name is found to be free, the key is made.
pub fn continue_key(state: KeyState, event: KeyEvent) -> (r: KeyTurn)
    ensures
        exists|made: Result<SigningKeyView, ErrorView>|
            {
                &&& state@ matches KeyStateView::Naming { kid, bits } ==> may_be_made(
                    made,
                    kid,
                    bits,
                )
                &&& r@ == #[trigger] turn(state@, event@, made)
            },
{
    let ghost before = state@;
    let ghost answer = event@;
    let ghost mut made: Result<SigningKeyView, ErrorView> = Err(
        match state@ {
            KeyStateView::Naming { kid, .. } if kid.len() == 0 => ErrorView::MissingKid,
            _ => ErrorView::Crypto(Seq::empty()),
        },
    );
    let r = match (state, event) {
        (KeyState::Naming { kid, bits }, KeyEvent::Found(found)) => match check_name(
            kid.as_str(),
            found,
        ) {
            Err(e) => KeyTurn::Refuse(e),
            Ok(()) => {
                let key = SigningKey::generate(kid, bits);
                proof {
                    made = rs256::outcome(key);
                }
                key_made(key)
            },
        },
        (KeyState::Writing(key), KeyEvent::Written(written)) => match written {
            Err(e) => KeyTurn::Refuse(to_core_invalid(e)),
            Ok(path) => {
                let meta = new_key_meta(&key, path.as_str());
                KeyTurn::Ask(KeyState::Recording(path), KeyAction::Record(meta))
            },
        },
        (KeyState::Recording(path), KeyEvent::Recorded(recorded)) => match recorded {
            Ok(meta) => KeyTurn::Finish(meta),
            Err(e) => KeyTurn::Ask(KeyState::Removing(e), KeyAction::Remove(path)),
        },
        (KeyState::Removing(e), KeyEvent::Removed) => KeyTurn::Refuse(e),
        _ => KeyTurn::Refuse(invalid("signing key: unexpected answer")),
    };
    assert(r@ == turn(before, answer, made));
    r
}

/// How many answers are still waited for.
pub open spec fn answers_left(state: KeyStateView) -> nat {
    match state {
        KeyStateView::Naming { .. } => 4,
        KeyStateView::Writing(_) => 3,
        KeyStateView::Recording(_) => 2,
        KeyStateView::Removing(_) => 1,
    }
}

/// Making a key comes to an end, whatever is answered.
pub proof fn law_key_making_ends(
    state: KeyStateView,
    event: KeyEventView,
    made: Result<SigningKeyView, ErrorView>,
)
    ensures
        turn(state, event, made) matches KeyTurnView::Ask(next, _) ==> answers_left(next)
            < answers_left(state),
{
}

/// No file is left of a key that could not be recorded: the file that was written
/// is removed, and the answer is the one that the record failed with.
pub proof fn law_unrecorded_key_is_removed(
    path: Seq<char>,
    e: CoreErrorView,
    made: Result<SigningKeyView, ErrorView>,
)
    ensures
        turn(KeyStateView::Recording(path), KeyEventView::Recorded(Err(e)), made)
            == KeyTurnView::Ask(KeyStateView::Removing(e), KeyActionView::Remove(path)),
        turn(KeyStateView::Removing(e), KeyEventView::Removed, made) == KeyTurnView::Refuse(e),
{
}

/// A file is only removed where the key in it could not be recorded, and a key is
/// only written where nothing is recorded under its name.
pub proof fn law_recorded_keys_are_left_alone(
    state: KeyStateView,
    event: KeyEventView,
    made: Result<SigningKeyView, ErrorView>,
)
    ensures
        turn(state, event, made) matches KeyTurnView::Ask(_, KeyActionView::Remove(path)) ==> {
            &&& state == KeyStateView::Recording(path)
            &&& event matches KeyEventView::Recorded(Err(_))
        },
        turn(state, event, made) matches KeyTurnView::Ask(_, KeyActionView::Write { .. })
            ==> event == KeyEventView::Found(Err(CoreErrorView::NotFound)),
{
}

/// What is recorded of a new key is its public half, and where it was written to.
pub proof fn law_new_key_is_recorded_as_written(
    key: SigningKeyView,
    path: Seq<char>,
    made: Result<SigningKeyView, ErrorView>,
)
    ensures
        turn(KeyStateView::Writing(key), KeyEventView::Written(Ok(path)), made)
            matches KeyTurnView::Ask(KeyStateView::Recording(p), KeyActionView::Record(meta))
            && p == path && meta.private_key_path == path && meta.kid == key.kid && meta.status
            == "active"@,
{
}

} // verus!
