//! The decisions made for one file: whether it is taken, whether its text
//! changes, and what is written.
use vstd::prelude::*;

use crate::detect::{
    charset_to_encoding, decode_with_label, decoded_text, detect_charset, detected_charset,
    encoding_label, escape_only, is_escape_only, known_label, sniff_mime, well_formed,
    DecodeStatus,
};
use crate::errors::{Error, Fault};
use crate::fix::{fix_string, fix_text, string_with_capacity};
use crate::paths::{backup_path, backup_path_of};
use crate::settings::Settings;

verus! {

/// How the processing of one file ended.
#[derive(Debug, Clone, Copy, PartialEq, Eq, Structural)]
pub enum Outcome {
    /// The text needed no change; nothing was written.
    Unchanged,
    /// The file was rewritten.
    Fixed,
}

/// What is to be done with a decoded file.
#[derive(Debug)]
pub enum Plan {
    /// Nothing: the text is already right.
    Unchanged,
    /// The file is backed up to `backup_path` and then holds `output`.
    Rewrite { backup_path: String, output: String },
}

/// A `Plan` as mathematical values.
pub enum Change {
    Unchanged,
    Rewrite { backup: Seq<char>, output: Seq<char> },
}

impl View for Plan {
    type V = Change;

    open spec fn view(&self) -> Change {
        match self {
            Plan::Unchanged => Change::Unchanged,
            Plan::Rewrite { backup_path, output } => Change::Rewrite {
                backup: backup_path@,
                output: output@,
            },
        }
    }
}

impl Plan {
    /// The outcome that carrying out the plan reports.
    pub fn outcome(&self) -> (r: Outcome)
        ensures
            r == (if self@ is Unchanged {
                Outcome::Unchanged
            } else {
                Outcome::Fixed
            }),
    {
        match self {
            Plan::Unchanged => Outcome::Unchanged,
            Plan::Rewrite { .. } => Outcome::Fixed,
        }
    }
}

pub open spec fn plan_result(r: Result<Plan, Error>) -> Result<Change, Fault> {
    match r {
        Ok(p) => Ok(p@),
        Err(e) => Err(e@),
    }
}

pub open spec fn unit_result(r: Result<(), Error>) -> Result<(), Fault> {
    match r {
        Ok(_) => Ok(()),
        Err(e) => Err(e@),
    }
}

/// What the metadata of a file decides: it must be a regular file no larger
/// than the limit.
pub open spec fn admission(path: Seq<char>, is_file: bool, size: u64, max_file_size: u64) -> Result<
    (),
    Fault,
> {
    if !is_file {
        Err(Fault::NotAFile(path))
    } else if size > max_file_size {
        Err(Fault::FileTooLarge(path))
    } else {
        Ok(())
    }
}

/// The MIME types whose files are read as text.
pub open spec fn is_accepted_mime(mime: Seq<char>) -> bool {
    mime == "text/plain"@ || mime == "application/x-subrip"@
}

/// What is decided once the file's bytes have been decoded: the text is kept
/// when the substitution leaves it as it is, else it is rewritten; a decode
/// that did not complete is an error.
pub open spec fn decision(path: Seq<char>, status: DecodeStatus, text: Seq<char>) -> Result<
    Change,
    Fault,
> {
    match status {
        DecodeStatus::Complete => if fix_text(text) == text {
            Ok(Change::Unchanged)
        } else {
            Ok(Change::Rewrite { backup: backup_path_of(path), output: fix_text(text) })
        },
        DecodeStatus::Malformed => Err(Fault::MalformedInput(path)),
        DecodeStatus::OutputFull => Err(Fault::OutputBufferExhausted(path)),
    }
}

/// Checks what the metadata of the file at `path` says against the settings.
pub fn check_metadata(path: &str, is_file: bool, size: u64, settings: &Settings) -> (r: Result<
    (),
    Error,
>)
    ensures
        unit_result(r) == admission(path@, is_file, size, settings.input.max_file_size),
{
    if !is_file {
        return Err(Error::not_a_file(path));
    }
    if size > settings.input.max_file_size {
        return Err(Error::file_too_large(path));
    }
    Ok(())
}

/// Whether files of this MIME type are read as text.
pub fn accepted_mime(mime: &String) -> (r: bool)
    ensures
        r == is_accepted_mime(mime@),
{
    let plain = "text/plain".to_owned();
    let subrip = "application/x-subrip".to_owned();
    *mime == plain || *mime == subrip
}

/// Decides what becomes of a file whose bytes were decoded to `text` and
/// ended with `status`.
pub fn decide(path: &str, status: DecodeStatus, text: &String) -> (r: Result<Plan, Error>)
    ensures
        plan_result(r) == decision(path@, status, text@),
{
    match status {
        DecodeStatus::Complete => {
            let output = fix_string(text);
            if output == *text {
                Ok(Plan::Unchanged)
            } else {
                Ok(Plan::Rewrite { backup_path: backup_path(path), output })
            }
        },
        DecodeStatus::Malformed => Err(Error::malformed_input(path)),
        DecodeStatus::OutputFull => Err(Error::output_buffer_exhausted(path)),
    }
}

/// The label of the encoding that is guessed for the bytes.
pub open spec fn guessed_label(bytes: Seq<u8>) -> Seq<char> {
    encoding_label(detected_charset(bytes))
}

/// What may come of bytes whose content was classified as `mime`.
/// - Another MIME type than plain text or SubRip is refused.
/// - Bytes on which no charset is guessed, or whose guessed charset names no
///   known encoding, are refused with that name (empty when there is none).
/// - Else the bytes are decoded strictly with that encoding: well-formed
///   bytes lead to the decision on their text, malformed ones to
///   `MalformedInput`; either may instead end in `OutputBufferExhausted` when
///   the text does not fit the room set aside for it.
pub open spec fn allowed_result(
    path: Seq<char>,
    mime: Seq<char>,
    bytes: Seq<u8>,
    res: Result<Change, Fault>,
) -> bool {
    let label = guessed_label(bytes);
    if !is_accepted_mime(mime) {
        res == Err::<Change, Fault>(Fault::UnsupportedMimeType(mime))
    } else if escape_only(bytes) {
        res == Err::<Change, Fault>(Fault::UnsupportedEncoding(Seq::empty()))
    } else if !known_label(label) {
        res == Err::<Change, Fault>(Fault::UnsupportedEncoding(label))
    } else {
        ||| well_formed(label, bytes) && res == decision(
            path,
            DecodeStatus::Complete,
            decoded_text(label, bytes),
        )
        ||| !well_formed(label, bytes) && res == Err::<Change, Fault>(Fault::MalformedInput(path))
        ||| res == Err::<Change, Fault>(Fault::OutputBufferExhausted(path))
    }
}

/// Decodes the bytes of the file at `path`, whose content was classified as
/// `mime`, and decides what becomes of it. The text is decoded strictly into
/// room for twice as many bytes as were read.
pub fn plan_with_mime(path: &str, mime: &String, contents: &Vec<u8>) -> (r: Result<Plan, Error>)
    ensures
        allowed_result(path@, mime@, contents@, plan_result(r)),
{
    if !accepted_mime(mime) {
        return Err(Error::unsupported_mime_type(mime.as_str()));
    }
    if is_escape_only(contents.as_slice()) {
        proof {
            reveal_strlit("");
        }
        assert(""@ =~= Seq::<char>::empty());
        return Err(Error::unsupported_encoding(""));
    }
    let charset = detect_charset(contents.as_slice());
    let label = charset_to_encoding(&charset);
    let half_limit: usize = (isize::MAX as usize) / 2;
    let capacity: usize = if contents.len() <= half_limit {
        contents.len() * 2
    } else {
        isize::MAX as usize
    };
    let mut text = string_with_capacity(capacity);
    let status = match decode_with_label(label.as_str(), contents.as_slice(), &mut text) {
        Some(status) => status,
        None => {
            return Err(Error::unsupported_encoding(label.as_str()));
        },
    };
    let ghost label_v = label@;
    assert(label_v == guessed_label(contents@));
    if status == DecodeStatus::Complete {
        assert(text@ =~= decoded_text(label_v, contents@));
    }
    let r = decide(path, status, &text);
    assert(plan_result(r) == decision(path@, status, text@));
    r
}

/// Classifies the content of the file at `path`, decodes it and decides what
/// becomes of it, as `plan_with_mime` says for the MIME type found.
pub fn plan_contents(path: &str, contents: &Vec<u8>) -> (r: Result<Plan, Error>)
    ensures
        exists|mime: Seq<char>| allowed_result(path@, mime, contents@, plan_result(r)),
{
    let mime = sniff_mime(contents.as_slice());
    plan_with_mime(path, &mime, contents)
}

/// A regular file of exactly the size limit is taken; one byte more and it
/// is refused as too large.
pub proof fn law_size_boundary(path: Seq<char>, max_file_size: u64)
    requires
        max_file_size < u64::MAX,
    ensures
        admission(path, true, max_file_size, max_file_size) == Ok::<(), Fault>(()),
        admission(path, true, (max_file_size + 1) as u64, max_file_size) == Err::<(), Fault>(
            Fault::FileTooLarge(path),
        ),
{
}

} // verus!
