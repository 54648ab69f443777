//! What can go wrong while a photo set is loaded or saved.

use vstd::prelude::*;
use vstd::string::StringExecFns;

verus! {

/// An I/O failure as std reports it; only carried along.
#[verifier::external_type_specification]
#[verifier::external_body]
pub struct ExIoError(std::io::Error);

/// A failure of the `image` crate to decode a picture; only carried along.
#[verifier::external_type_specification]
#[verifier::external_body]
pub struct ExImageError(image::ImageError);

/// A failure of `serde_json` to parse a text; only carried along.
#[verifier::external_type_specification]
#[verifier::external_body]
pub struct ExJsonError(serde_json::Error);

/// A failure of loading or saving, with the path or file it is about and,
/// where there is one, the underlying error.
#[derive(Debug)]
#[allow(inconsistent_fields)]
pub enum DScopeError {
    NoPhotosFound { path: String },
    ExpectedDirectory { path: String },
    CannotReadFile { error: std::io::Error, file: String },
    CannotWriteFile { error: std::io::Error, file: String },
    CannotDecodeImage { error: image::ImageError, file: String },
    CannotCreateImage { error: String, file: String },
    CannotDecodeInfo { error: serde_json::Error, file: String },
}

pub type DScopeResult<T> = Result<T, DScopeError>;

/// `std::io::Error`'s `Display` text. Which text an error has is up to std and
/// the operating system, so nothing is claimed of it.
#[verifier::external_body]
fn io_error_text(error: &std::io::Error) -> String {
    error.to_string()
}

/// `image::ImageError`'s `Display` text; nothing is claimed of it.
#[verifier::external_body]
fn image_error_text(error: &image::ImageError) -> String {
    error.to_string()
}

/// `serde_json::Error`'s `Display` text; nothing is claimed of it.
#[verifier::external_body]
fn json_error_text(error: &serde_json::Error) -> String {
    error.to_string()
}

/// `head`, `subject`, a colon and a space, `cause`.
fn join_message(head: &str, subject: &str, cause: &str) -> (text: String)
    ensures
        text@ == head@ + subject@ + ": "@ + cause@,
{
    let mut text = String::from_str(head);
    text.append(subject);
    text.append(": ");
    text.append(cause);
    text
}

impl DScopeError {
    /// The path or file that the failure is about.
    pub open spec fn subject(&self) -> String {
        match *self {
            DScopeError::NoPhotosFound { path } => path,
            DScopeError::ExpectedDirectory { path } => path,
            DScopeError::CannotReadFile { file, .. } => file,
            DScopeError::CannotWriteFile { file, .. } => file,
            DScopeError::CannotDecodeImage { file, .. } => file,
            DScopeError::CannotCreateImage { file, .. } => file,
            DScopeError::CannotDecodeInfo { file, .. } => file,
        }
    }

    /// The message of this failure, given the text of its underlying error.
    /// The two kinds without an underlying error ignore `cause`.
    pub open spec fn message_with(&self, cause: Seq<char>) -> Seq<char> {
        match *self {
            DScopeError::NoPhotosFound { path } => "no photos found: "@ + path@,
            DScopeError::ExpectedDirectory { path } => "Expected directory: "@ + path@,
            DScopeError::CannotReadFile { file, .. } => "Cannot read file "@ + file@ + ": "@ + cause,
            DScopeError::CannotWriteFile { file, .. } => "Cannot write file "@ + file@ + ": "@
                + cause,
            DScopeError::CannotDecodeImage { file, .. } => "Cannot decode image "@ + file@ + ": "@
                + cause,
            DScopeError::CannotCreateImage { file, .. } => "Cannot create image "@ + file@ + ": "@
                + cause,
            DScopeError::CannotDecodeInfo { file, .. } => "Cannot decode info "@ + file@ + ": "@
                + cause,
        }
    }

    pub fn no_photos_found(path: String) -> (e: DScopeError)
        ensures
            e == (DScopeError::NoPhotosFound { path }),
    {
        DScopeError::NoPhotosFound { path }
    }

    pub fn expected_directory(path: String) -> (e: DScopeError)
        ensures
            e == (DScopeError::ExpectedDirectory { path }),
    {
        DScopeError::ExpectedDirectory { path }
    }

    pub fn cannot_read_file(error: std::io::Error, file: String) -> (e: DScopeError)
        ensures
            e == (DScopeError::CannotReadFile { error, file }),
    {
        DScopeError::CannotReadFile { error, file }
    }

    pub fn cannot_write_file(error: std::io::Error, file: String) -> (e: DScopeError)
        ensures
            e == (DScopeError::CannotWriteFile { error, file }),
    {
        DScopeError::CannotWriteFile { error, file }
    }

    pub fn cannot_decode_image(error: image::ImageError, file: String) -> (e: DScopeError)
        ensures
            e == (DScopeError::CannotDecodeImage { error, file }),
    {
        DScopeError::CannotDecodeImage { error, file }
    }

    pub fn cannot_create_image(error: String, file: String) -> (e: DScopeError)
        ensures
            e == (DScopeError::CannotCreateImage { error, file }),
    {
        DScopeError::CannotCreateImage { error, file }
    }

    pub fn cannot_decode_info(error: serde_json::Error, file: String) -> (e: DScopeError)
        ensures
            e == (DScopeError::CannotDecodeInfo { error, file }),
    {
        DScopeError::CannotDecodeInfo { error, file }
    }

    /// The message of this failure with `cause` as the text of its underlying
    /// error.
    pub fn describe(&self, cause: &str) -> (text: String)
        ensures
            text@ == self.message_with(cause@),
    {
        match self {
            DScopeError::NoPhotosFound { path } => {
                let mut text = String::from_str("no photos found: ");
                text.append(path.as_str());
                text
            },
            DScopeError::ExpectedDirectory { path } => {
                let mut text = String::from_str("Expected directory: ");
                text.append(path.as_str());
                text
            },
            DScopeError::CannotReadFile { file, .. } => join_message(
                "Cannot read file ",
                file.as_str(),
                cause,
            ),
            DScopeError::CannotWriteFile { file, .. } => join_message(
                "Cannot write file ",
                file.as_str(),
                cause,
            ),
            DScopeError::CannotDecodeImage { file, .. } => join_message(
                "Cannot decode image ",
                file.as_str(),
                cause,
            ),
            DScopeError::CannotCreateImage { file, .. } => join_message(
                "Cannot create image ",
                file.as_str(),
                cause,
            ),
            DScopeError::CannotDecodeInfo { file, .. } => join_message(
                "Cannot decode info ",
                file.as_str(),
                cause,
            ),
        }
    }

    /// The message of this failure: its kind, the path or file it is about
    /// and, after a colon, the text of the underlying error where there is one.
    pub fn message(&self) -> (text: String)
        ensures
            match *self {
                DScopeError::NoPhotosFound { .. } | DScopeError::ExpectedDirectory { .. } => text@
                    == self.message_with(Seq::empty()),
                DScopeError::CannotCreateImage { error, .. } => text@ == self.message_with(error@),
                _ => exists|cause: Seq<char>| text@ == self.message_with(cause),
            },
    {
        match self {
            DScopeError::NoPhotosFound { .. } | DScopeError::ExpectedDirectory { .. } => {
                self.describe("")
            },
            DScopeError::CannotReadFile { error, .. } | DScopeError::CannotWriteFile { error, .. } => {
                let cause = io_error_text(error);
                self.describe(cause.as_str())
            },
            DScopeError::CannotDecodeImage { error, .. } => {
                let cause = image_error_text(error);
                self.describe(cause.as_str())
            },
            DScopeError::CannotCreateImage { error, .. } => self.describe(error.as_str()),
            DScopeError::CannotDecodeInfo { error, .. } => {
                let cause = json_error_text(error);
                self.describe(cause.as_str())
            },
        }
    }
}

} // verus!
