//! Commands: how a request frame is checked and turned into a command, and
//! what running a command against the keyspace does.

use crate::backend::{Backend, StoreView};
use crate::cmd::sadd::{sadd_failure, sadd_parsed, SAdd, SAddView};
use crate::resp::{bytes_eq, lemma_array_view, FrameView, RespArray, RespFrame};
pub mod sadd;

use vstd::prelude::*;
use vstd::utf8::{decode_utf8, encode_utf8, valid_utf8};

verus! {

/// Why a frame was not accepted as a command. Each variant carries a message
/// for the client.
#[derive(Debug)]
pub enum CommandError {
    /// The frame does not begin with a name that the command answers to.
    InvalidCommand(String),
    /// The number of arguments after the name breaks the command's arity rule.
    WrongNumberOfArguments(String),
    /// An argument is there but cannot be taken: it has the wrong shape, or
    /// it must be text and its bytes are not valid UTF-8. The message names
    /// the command and, for bytes that are no text, says so.
    InvalidArgument(String),
}

/// The mathematical value of a [`CommandError`].
pub enum CommandErrorView {
    InvalidCommand(Seq<char>),
    WrongNumberOfArguments(Seq<char>),
    InvalidArgument(Seq<char>),
}

impl View for CommandError {
    type V = CommandErrorView;

    open spec fn view(&self) -> CommandErrorView {
        match self {
            CommandError::InvalidCommand(m) => CommandErrorView::InvalidCommand(m@),
            CommandError::WrongNumberOfArguments(m) => CommandErrorView::WrongNumberOfArguments(m@),
            CommandError::InvalidArgument(m) => CommandErrorView::InvalidArgument(m@),
        }
    }
}

impl CommandErrorView {
    /// Whether the error says that the frame's name or arity was refused,
    /// before any argument was looked at.
    pub open spec fn is_validation_failure(self) -> bool {
        self is InvalidCommand || self is WrongNumberOfArguments
    }
}

/// How the number of arguments is held against the number a command declares.
#[derive(Debug, Clone, Copy, PartialEq, Eq, Structural)]
pub enum ArgsCheckRule {
    /// Exactly the declared number.
    Equal,
    /// The declared number or more.
    EqualOrGreater,
}

/// Whether a frame of `len` elements, the name being one of them, has a number
/// of arguments that `rule` accepts for a command declaring `n_args`.
pub open spec fn arity_ok(len: nat, n_args: nat, rule: ArgsCheckRule) -> bool {
    match rule {
        ArgsCheckRule::Equal => len == 1 + n_args,
        ArgsCheckRule::EqualOrGreater => len >= 1 + n_args,
    }
}

/// Whether `frame` is a present bulk string whose bytes spell one of `names`
/// exactly.
pub open spec fn is_named(frame: FrameView, names: Seq<&str>) -> bool {
    frame matches FrameView::BulkString(Some(bytes)) && exists|i: int|
        0 <= i < names.len() && bytes == encode_utf8(#[trigger] names[i]@)
}

/// The message of the error for a refused number of arguments.
pub open spec fn wrong_arity_message() -> Seq<char> {
    "wrong number of arguments"@
}

/// The message of the error for a refused command name.
pub open spec fn wrong_name_message() -> Seq<char> {
    "unknown command"@
}

/// The error with which a frame is refused by name and arity, if it is
/// refused: the arity is looked at first, then the name.
pub open spec fn validation_failure(
    frames: Seq<FrameView>,
    names: Seq<&str>,
    n_args: nat,
    rule: ArgsCheckRule,
) -> Option<CommandErrorView> {
    if !arity_ok(frames.len(), n_args, rule) {
        Some(CommandErrorView::WrongNumberOfArguments(wrong_arity_message()))
    } else if !is_named(frames[0], names) {
        Some(CommandErrorView::InvalidCommand(wrong_name_message()))
    } else {
        None
    }
}

/// Checks a request against a command's declaration: the names it answers to,
/// the number of arguments it declares, and how that number is compared.
pub fn validate_command(
    value: &RespArray,
    names: &[&str],
    n_args: usize,
    rule: ArgsCheckRule,
) -> (r: Result<(), CommandError>)
    ensures
        match r {
            Ok(_) => validation_failure(value@, names@, n_args as nat, rule) is None,
            Err(e) => validation_failure(value@, names@, n_args as nat, rule) == Some(e@),
        },
{
    let len = value.0.len();
    let arity = len >= 1 && match rule {
        ArgsCheckRule::Equal => len - 1 == n_args,
        ArgsCheckRule::EqualOrGreater => len - 1 >= n_args,
    };
    if !arity {
        return Err(CommandError::WrongNumberOfArguments("wrong number of arguments".to_string()));
    }
    let named = match &value.0[0] {
        RespFrame::BulkString(Some(name)) => {
            let mut found = false;
            let mut i: usize = 0;
            while i < names.len() && !found
                invariant
                    i <= names.len(),
                    found ==> is_named(value@[0], names@),
                    !found ==> forall|j: int|
                        0 <= j < i ==> name.0@ != encode_utf8(#[trigger] names@[j]@),
                    value@[0] == FrameView::BulkString(Some(name.0@)),
                decreases names.len() - i + if found { 0int } else { 1int },
            {
                if bytes_eq(name.0.as_slice(), names[i].as_bytes()) {
                    found = true;
                } else {
                    i += 1;
                }
            }
            found
        },
        _ => false,
    };
    if !named {
        return Err(CommandError::InvalidCommand("unknown command".to_string()));
    }
    Ok(())
}

/// The arguments of a request: its elements from the place `start` on, in
/// their order. A `start` past the end leaves none.
pub fn extract_args(value: RespArray, start: usize) -> (r: Result<Vec<RespFrame>, CommandError>)
    ensures
        r matches Ok(args) && RespArray(args)@ == value@.skip(
            if start <= value@.len() {
                start as int
            } else {
                value@.len() as int
            },
        ),
{
    let mut frames = value.0;
    let from = if start <= frames.len() {
        start
    } else {
        frames.len()
    };
    let args = frames.split_off(from);
    assert(RespArray(args)@ =~= value@.skip(from as int));
    Ok(args)
}

/// Makes text of bytes with `String::from_utf8`, which checks that the bytes
/// are valid UTF-8 and then keeps them as they are. Trusted: the result is
/// there exactly when the bytes are valid UTF-8, and then it reads as the
/// characters that the bytes encode.
#[verifier::external_body]
pub(crate) fn string_from_utf8(bytes: Vec<u8>) -> (text: Option<String>)
    ensures
        text is Some <==> valid_utf8(bytes@),
        text matches Some(s) ==> s@ == decode_utf8(bytes@),
{
    match String::from_utf8(bytes) {
        Ok(s) => Some(s),
        Err(_) => None,
    }
}

/// What every command does once it is built: it runs against the keyspace,
/// changes it, and answers with one frame.
pub trait CommandExecutor: Sized {
    /// Whether the command can run on `store`: its reply can be told in a
    /// frame.
    spec fn runs_on(&self, store: StoreView) -> bool;

    /// The frame with which the command answers when run on `store`.
    spec fn reply_on(&self, store: StoreView) -> FrameView;

    /// The keyspace that running the command on `store` leaves.
    spec fn store_after(&self, store: StoreView) -> StoreView;

    /// Runs the command on the keyspace.
    fn execute(self, backend: &mut Backend) -> (reply: RespFrame)
        requires
            self.runs_on(old(backend)@),
        ensures
            reply@ == self.reply_on(old(backend)@),
            final(backend)@ == self.store_after(old(backend)@),
    ;
}

/// A request that was accepted, of whichever kind.
#[derive(Debug)]
pub enum Command {
    SAdd(SAdd),
}

/// The mathematical value of a [`Command`].
pub enum CommandView {
    SAdd(SAddView),
}

impl View for Command {
    type V = CommandView;

    open spec fn view(&self) -> CommandView {
        match self {
            Command::SAdd(cmd) => CommandView::SAdd(cmd@),
        }
    }
}

/// The message of the error for a request that is no present array.
pub open spec fn not_an_array_message() -> Seq<char> {
    "command must be an array"@
}

/// The error with which a frame is refused as a command, if it is refused:
/// it must be a present array, and an `SADD` request.
pub open spec fn command_failure(frame: FrameView) -> Option<CommandErrorView> {
    match frame {
        FrameView::Array(Some(frames)) => sadd_failure(frames),
        _ => Some(CommandErrorView::InvalidCommand(not_an_array_message())),
    }
}

impl Command {
    /// Builds a command from a request frame, or says why the frame is none.
    pub fn try_from(frame: RespFrame) -> (r: Result<Command, CommandError>)
        ensures
            match r {
                Ok(cmd) => command_failure(frame@) is None && cmd@ == CommandView::SAdd(
                    sadd_parsed(frame@->Array_0->Some_0),
                ),
                Err(e) => command_failure(frame@) == Some(e@),
            },
    {
        match frame {
            RespFrame::Array(Some(array)) => {
                proof {
                    lemma_array_view(array);
                }
                match SAdd::try_from(array) {
                    Ok(cmd) => Ok(Command::SAdd(cmd)),
                    Err(e) => Err(e),
                }
            },
            _ => Err(CommandError::InvalidCommand("command must be an array".to_string())),
        }
    }
}

impl CommandExecutor for Command {
    open spec fn runs_on(&self, store: StoreView) -> bool {
        match self {
            Command::SAdd(cmd) => cmd.runs_on(store),
        }
    }

    open spec fn reply_on(&self, store: StoreView) -> FrameView {
        match self {
            Command::SAdd(cmd) => cmd.reply_on(store),
        }
    }

    open spec fn store_after(&self, store: StoreView) -> StoreView {
        match self {
            Command::SAdd(cmd) => cmd.store_after(store),
        }
    }

    fn execute(self, backend: &mut Backend) -> (reply: RespFrame) {
        match self {
            Command::SAdd(cmd) => cmd.execute(backend),
        }
    }
}

} // verus!
