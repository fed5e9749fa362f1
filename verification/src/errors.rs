//! The library's error type.
//!
//! Errors are structured values carrying the offending inputs; a verified
//! renderer produces the human-readable diagnostic line for each.

use vstd::prelude::*;

verus! {

use vstd::string::StringExecFns;
use crate::numerals::{dec_seq, append_u32};

/// Mathematical model of an error: the same shape as [`CutoutError`],
/// with strings as character sequences.
pub enum ErrorModel {
    /// The capture string does not have exactly three `:`-separated parts.
    InvalidFormat { text: Seq<char> },
    /// A coordinate pair has no separator, so its second component is missing.
    MissingSecond { label: Seq<char> },
    /// A coordinate pair has more than two components.
    TooManyComponents { label: Seq<char>, text: Seq<char> },
    /// The first component of a pair is not an unsigned decimal number.
    InvalidFirstNumber { label: Seq<char>, token: Seq<char>, text: Seq<char> },
    /// The second component of a pair is not an unsigned decimal number.
    InvalidSecondNumber { label: Seq<char>, token: Seq<char>, text: Seq<char> },
    /// Width or height is zero.
    ZeroDimension { text: Seq<char> },
    /// Bottom-left `y` lies above the image's height.
    YOutsideHeight { name: Seq<char>, y: u32, img_height: u32 },
    /// Bottom-left `y` plus the rectangle's height overruns the image's top.
    BottomEdgeOutsideHeight { name: Seq<char>, y: u32, height: u32, img_height: u32 },
    /// The absolute origin point lies outside the image.
    OriginOutsideBounds {
        name: Seq<char>,
        abs_x: u32,
        abs_y: u32,
        img_width: u32,
        img_height: u32,
    },
    /// The rectangle extends past the image's right or bottom edge.
    ExceedsBounds {
        name: Seq<char>,
        abs_x: u32,
        abs_y: u32,
        width: u32,
        height: u32,
        img_width: u32,
        img_height: u32,
    },
    /// The input path has no file-name component.
    NoFileName { path: Seq<char> },
}

/// An error of the capture pipeline: spec syntax, bounds, or path errors.
/// I/O failures are not represented here; they stay with the caller that
/// performs the I/O.
#[derive(Debug)]
pub enum CutoutError {
    InvalidFormat { text: String },
    MissingSecond { label: String },
    TooManyComponents { label: String, text: String },
    InvalidFirstNumber { label: String, token: String, text: String },
    InvalidSecondNumber { label: String, token: String, text: String },
    ZeroDimension { text: String },
    YOutsideHeight { name: String, y: u32, img_height: u32 },
    BottomEdgeOutsideHeight { name: String, y: u32, height: u32, img_height: u32 },
    OriginOutsideBounds { name: String, abs_x: u32, abs_y: u32, img_width: u32, img_height: u32 },
    ExceedsBounds {
        name: String,
        abs_x: u32,
        abs_y: u32,
        width: u32,
        height: u32,
        img_width: u32,
        img_height: u32,
    },
    NoFileName { path: String },
}

impl View for CutoutError {
    type V = ErrorModel;

    open spec fn view(&self) -> ErrorModel {
        match self {
            CutoutError::InvalidFormat { text } => ErrorModel::InvalidFormat { text: text@ },
            CutoutError::MissingSecond { label } => ErrorModel::MissingSecond { label: label@ },
            CutoutError::TooManyComponents { label, text } => ErrorModel::TooManyComponents {
                label: label@,
                text: text@,
            },
            CutoutError::InvalidFirstNumber { label, token, text } => {
                ErrorModel::InvalidFirstNumber { label: label@, token: token@, text: text@ }
            },
            CutoutError::InvalidSecondNumber { label, token, text } => {
                ErrorModel::InvalidSecondNumber { label: label@, token: token@, text: text@ }
            },
            CutoutError::ZeroDimension { text } => ErrorModel::ZeroDimension { text: text@ },
            CutoutError::YOutsideHeight { name, y, img_height } => ErrorModel::YOutsideHeight {
                name: name@,
                y: *y,
                img_height: *img_height,
            },
            CutoutError::BottomEdgeOutsideHeight { name, y, height, img_height } => {
                ErrorModel::BottomEdgeOutsideHeight {
                    name: name@,
                    y: *y,
                    height: *height,
                    img_height: *img_height,
                }
            },
            CutoutError::OriginOutsideBounds { name, abs_x, abs_y, img_width, img_height } => {
                ErrorModel::OriginOutsideBounds {
                    name: name@,
                    abs_x: *abs_x,
                    abs_y: *abs_y,
                    img_width: *img_width,
                    img_height: *img_height,
                }
            },
            CutoutError::ExceedsBounds {
                name,
                abs_x,
                abs_y,
                width,
                height,
                img_width,
                img_height,
            } => ErrorModel::ExceedsBounds {
                name: name@,
                abs_x: *abs_x,
                abs_y: *abs_y,
                width: *width,
                height: *height,
                img_width: *img_width,
                img_height: *img_height,
            },
            CutoutError::NoFileName { path } => ErrorModel::NoFileName { path: path@ },
        }
    }
}

/// The diagnostic line for each error, as a character sequence.
pub open spec fn message_model(e: ErrorModel) -> Seq<char> {
    match e {
        ErrorModel::InvalidFormat { text } => "Invalid capture spec '"@ + text
            + "'. Expected format: <name>:<x>x<y>:<width>x<height>"@,
        ErrorModel::MissingSecond { label } => "Missing second "@ + label,
        ErrorModel::TooManyComponents { label, text } => "Too many components for "@ + label
            + " in capture spec '"@ + text + "'"@,
        ErrorModel::InvalidFirstNumber { label, token, text } => "Failed to parse first "@ + label
            + " value '"@ + token + "' in capture spec '"@ + text + "'"@,
        ErrorModel::InvalidSecondNumber { label, token, text } => "Failed to parse second "@
            + label + " value '"@ + token + "' in capture spec '"@ + text + "'"@,
        ErrorModel::ZeroDimension { text } => "Width and height must be positive in capture spec '"@
            + text + "'"@,
        ErrorModel::YOutsideHeight { name, y, img_height } => "Capture '"@ + name + "' y="@
            + dec_seq(y as nat) + " is outside image height="@ + dec_seq(img_height as nat),
        ErrorModel::BottomEdgeOutsideHeight { name, y, height, img_height } => "Capture '"@ + name
            + "' (y="@ + dec_seq(y as nat) + ", height="@ + dec_seq(height as nat)
            + ") is outside image height="@ + dec_seq(img_height as nat),
        ErrorModel::OriginOutsideBounds { name, abs_x, abs_y, img_width, img_height } => {
            "Capture '"@ + name + "' origin ("@ + dec_seq(abs_x as nat) + ", "@ + dec_seq(
                abs_y as nat,
            ) + ") is outside image bounds "@ + dec_seq(img_width as nat) + "x"@ + dec_seq(
                img_height as nat,
            )
        },
        ErrorModel::ExceedsBounds { name, abs_x, abs_y, width, height, img_width, img_height } => {
            "Capture '"@ + name + "' rectangle ("@ + dec_seq(abs_x as nat) + ", "@ + dec_seq(
                abs_y as nat,
            ) + ", "@ + dec_seq(width as nat) + "x"@ + dec_seq(height as nat)
                + ") exceeds image bounds "@ + dec_seq(img_width as nat) + "x"@ + dec_seq(
                img_height as nat,
            )
        },
        ErrorModel::NoFileName { path } => "Input path '"@ + path + "' has no file name"@,
    }
}

impl CutoutError {
    /// Render the diagnostic line for this error.
    pub fn message(&self) -> (r: String)
        ensures
            r@ == message_model(self@),
    {
        match self {
            CutoutError::InvalidFormat { text } => {
                let mut m = String::from_str("Invalid capture spec '");
                m.append(text.as_str());
                m.append("'. Expected format: <name>:<x>x<y>:<width>x<height>");
                proof {
                    assert(m@ =~= message_model(self@));
                }
                m
            },
            CutoutError::MissingSecond { label } => {
                let mut m = String::from_str("Missing second ");
                m.append(label.as_str());
                proof {
                    assert(m@ =~= message_model(self@));
                }
                m
            },
            CutoutError::TooManyComponents { label, text } => {
                let mut m = String::from_str("Too many components for ");
                m.append(label.as_str());
                m.append(" in capture spec '");
                m.append(text.as_str());
                m.append("'");
                proof {
                    assert(m@ =~= message_model(self@));
                }
                m
            },
            CutoutError::InvalidFirstNumber { label, token, text } => {
                let mut m = String::from_str("Failed to parse first ");
                m.append(label.as_str());
                m.append(" value '");
                m.append(token.as_str());
                m.append("' in capture spec '");
                m.append(text.as_str());
                m.append("'");
                proof {
                    assert(m@ =~= message_model(self@));
                }
                m
            },
            CutoutError::InvalidSecondNumber { label, token, text } => {
                let mut m = String::from_str("Failed to parse second ");
                m.append(label.as_str());
                m.append(" value '");
                m.append(token.as_str());
                m.append("' in capture spec '");
                m.append(text.as_str());
                m.append("'");
                proof {
                    assert(m@ =~= message_model(self@));
                }
                m
            },
            CutoutError::ZeroDimension { text } => {
                let mut m = String::from_str("Width and height must be positive in capture spec '");
                m.append(text.as_str());
                m.append("'");
                proof {
                    assert(m@ =~= message_model(self@));
                }
                m
            },
            CutoutError::YOutsideHeight { name, y, img_height } => {
                let mut m = String::from_str("Capture '");
                m.append(name.as_str());
                m.append("' y=");
                append_u32(&mut m, *y);
                m.append(" is outside image height=");
                append_u32(&mut m, *img_height);
                proof {
                    assert(m@ =~= message_model(self@));
                }
                m
            },
            CutoutError::BottomEdgeOutsideHeight { name, y, height, img_height } => {
                let mut m = String::from_str("Capture '");
                m.append(name.as_str());
                m.append("' (y=");
                append_u32(&mut m, *y);
                m.append(", height=");
                append_u32(&mut m, *height);
                m.append(") is outside image height=");
                append_u32(&mut m, *img_height);
                proof {
                    assert(m@ =~= message_model(self@));
                }
                m
            },
            CutoutError::OriginOutsideBounds { name, abs_x, abs_y, img_width, img_height } => {
                let mut m = String::from_str("Capture '");
                m.append(name.as_str());
                m.append("' origin (");
                append_u32(&mut m, *abs_x);
                m.append(", ");
                append_u32(&mut m, *abs_y);
                m.append(") is outside image bounds ");
                append_u32(&mut m, *img_width);
                m.append("x");
                append_u32(&mut m, *img_height);
                proof {
                    assert(m@ =~= message_model(self@));
                }
                m
            },
            CutoutError::ExceedsBounds {
                name,
                abs_x,
                abs_y,
                width,
                height,
                img_width,
                img_height,
            } => {
                let mut m = String::from_str("Capture '");
                m.append(name.as_str());
                m.append("' rectangle (");
                append_u32(&mut m, *abs_x);
                m.append(", ");
                append_u32(&mut m, *abs_y);
                m.append(", ");
                append_u32(&mut m, *width);
                m.append("x");
                append_u32(&mut m, *height);
                m.append(") exceeds image bounds ");
                append_u32(&mut m, *img_width);
                m.append("x");
                append_u32(&mut m, *img_height);
                proof {
                    assert(m@ =~= message_model(self@));
                }
                m
            },
            CutoutError::NoFileName { path } => {
                let mut m = String::from_str("Input path '");
                m.append(path.as_str());
                m.append("' has no file name");
                proof {
                    assert(m@ =~= message_model(self@));
                }
                m
            },
        }
    }
}

} // verus!
