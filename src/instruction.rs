//! Decoding of instruction bytes into commands.
use crate::codec::{read_text, text_at};
use crate::error::StudentIntroError;
use vstd::prelude::*;
use vstd::utf8::encode_utf8;

verus! {

/// One command submitted to the program.
pub enum IntroInstruction {
    InitUserInput { name: String, message: String },
    UpdateStudentIntro { name: String, message: String },
    AddReply { reply: String },
}

/// A command with its texts as UTF-8 bytes.
pub enum Command {
    Init { name: Seq<u8>, message: Seq<u8> },
    Update { name: Seq<u8>, message: Seq<u8> },
    Reply { reply: Seq<u8> },
}

impl View for IntroInstruction {
    type V = Command;

    open spec fn view(&self) -> Command {
        match self {
            IntroInstruction::InitUserInput { name, message } => Command::Init {
                name: encode_utf8(name@),
                message: encode_utf8(message@),
            },
            IntroInstruction::UpdateStudentIntro { name, message } => Command::Update {
                name: encode_utf8(name@),
                message: encode_utf8(message@),
            },
            IntroInstruction::AddReply { reply } => Command::Reply { reply: encode_utf8(reply@) },
        }
    }
}

/// Two framed texts from `pos` that end exactly at the end of `b`.
pub open spec fn two_texts(b: Seq<u8>, pos: int) -> Option<(Seq<u8>, Seq<u8>)> {
    match text_at(b, pos) {
        Some((n, p)) => match text_at(b, p) {
            Some((m, q)) => if q == b.len() {
                Some((n, m))
            } else {
                None
            },
            None => None,
        },
        None => None,
    }
}

/// One framed text from `pos` that ends exactly at the end of `b`.
pub open spec fn one_text(b: Seq<u8>, pos: int) -> Option<Seq<u8>> {
    match text_at(b, pos) {
        Some((t, q)) => if q == b.len() {
            Some(t)
        } else {
            None
        },
        None => None,
    }
}

/// The command that `b` encodes: a tag byte (0 create, 1 update, 2 reply),
/// then that command's texts in order, with nothing left over.
pub open spec fn decode_instruction(b: Seq<u8>) -> Option<Command> {
    if b.len() == 0 {
        None
    } else if b[0] == 0 {
        match two_texts(b, 1) {
            Some((n, m)) => Some(Command::Init { name: n, message: m }),
            None => None,
        }
    } else if b[0] == 1 {
        match two_texts(b, 1) {
            Some((n, m)) => Some(Command::Update { name: n, message: m }),
            None => None,
        }
    } else if b[0] == 2 {
        match one_text(b, 1) {
            Some(t) => Some(Command::Reply { reply: t }),
            None => None,
        }
    } else {
        None
    }
}

/// An empty buffer, or one whose tag byte names no command, decodes to nothing.
pub proof fn decode_rejects_empty_and_unknown_tags(b: Seq<u8>)
    requires
        b.len() == 0 || b[0] > 2,
    ensures
        decode_instruction(b) is None,
{
}

/// Reads two framed texts from `pos` that end exactly at the end of `input`.
fn unpack_two(input: &[u8], pos: usize) -> (r: Option<(String, String)>)
    ensures
        match two_texts(input@, pos as int) {
            Some((n, m)) => r matches Some((a, b)) && encode_utf8(a@) == n && encode_utf8(b@) == m,
            None => r is None,
        },
{
    let (name, p) = match read_text(input, pos) {
        Some(x) => x,
        None => return None,
    };
    let (message, q) = match read_text(input, p) {
        Some(x) => x,
        None => return None,
    };
    if q != input.len() {
        return None;
    }
    Some((name, message))
}

impl IntroInstruction {
    /// Decodes instruction bytes; malformed input gives `DecodingError`.
    pub fn unpack(input: &[u8]) -> (r: Result<IntroInstruction, StudentIntroError>)
        ensures
            match decode_instruction(input@) {
                Some(c) => r matches Ok(i) && i@ == c,
                None => r == Err::<IntroInstruction, StudentIntroError>(
                    StudentIntroError::DecodingError,
                ),
            },
    {
        if input.len() == 0 {
            return Err(StudentIntroError::DecodingError);
        }
        let tag = input[0];
        if tag == 0 || tag == 1 {
            match unpack_two(input, 1) {
                Some((name, message)) => if tag == 0 {
                    Ok(IntroInstruction::InitUserInput { name, message })
                } else {
                    Ok(IntroInstruction::UpdateStudentIntro { name, message })
                },
                None => Err(StudentIntroError::DecodingError),
            }
        } else if tag == 2 {
            match read_text(input, 1) {
                Some((reply, q)) => if q == input.len() {
                    Ok(IntroInstruction::AddReply { reply })
                } else {
                    Err(StudentIntroError::DecodingError)
                },
                None => Err(StudentIntroError::DecodingError),
            }
        } else {
            Err(StudentIntroError::DecodingError)
        }
    }
}

} // verus!
