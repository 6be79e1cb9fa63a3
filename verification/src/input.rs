//! The text buffer of a staged field: a `tui_input::Input`, of which the
//! library knows the text that it holds.

use tui_input::{Input, InputRequest};
use vstd::prelude::*;

verus! {

/// `tui_input::Input`: a text buffer with a cursor. The proofs see nothing
/// inside it.
#[verifier::external_type_specification]
#[verifier::external_body]
pub struct ExInput(tui_input::Input);

/// `tui_input::InputRequest`: one editing request to a buffer. The proofs see
/// nothing inside it.
#[verifier::external_type_specification]
#[verifier::external_body]
pub struct ExInputRequest(tui_input::InputRequest);

/// The text that a buffer holds.
pub uninterp spec fn input_text(input: Input) -> Seq<char>;

/// The text that a buffer holds once it has handled an editing request. The
/// buffer decides it from its own state and the request alone.
pub uninterp spec fn input_text_after(input: Input, request: InputRequest) -> Seq<char>;

/// Calls `Input::new`, which makes a buffer that holds the given text, with
/// the cursor behind it.
#[verifier::external_body]
pub(crate) fn input_new(text: String) -> (r: Input)
    ensures
        input_text(r) == text@,
{
    Input::new(text)
}

/// Calls `Input::value`, which gives the text that the buffer holds, and
/// copies it.
#[verifier::external_body]
pub(crate) fn input_value(input: &Input) -> (r: String)
    ensures
        r@ == input_text(*input),
{
    input.value().to_string()
}

/// Calls `Input::handle`, which applies one editing request to the buffer.
/// The text that the buffer holds afterwards is the one that the buffer and
/// the request determine; what that text is, is not claimed.
#[verifier::external_body]
pub(crate) fn input_handle(input: &mut Input, request: InputRequest)
    ensures
        input_text(*final(input)) == input_text_after(*old(input), request),
{
    input.handle(request);
}

} // verus!
