//! The flood-fill route: from its request to drawing commands.

use crate::drawing_app::commands::{CommandName, DrawCommand};
use crate::server::handlers::draw_rectangle::commands_of_field;
use crate::server::handlers::errors::StringTooLong;
use crate::server::handlers::request::FloodFillOperation;
use crate::server::handlers::utils::{field_is_not_none, valid_character};
use vstd::prelude::*;

verus! {

/// The commands that a flood-fill request asks for: one flood fill, unless
/// its field is the word "none".
pub open spec fn flood_fill_request_commands(request: FloodFillOperation) -> Result<
    Seq<DrawCommand>,
    StringTooLong,
> {
    commands_of_field(request.fill_character@, CommandName::FloodFill, request.position, None)
}

/// Turns a flood-fill request into the commands to draw. A field that is
/// neither the word "none" nor one single character fails the request.
pub fn flood_fill_commands(request: &FloodFillOperation) -> (outcome: Result<
    Vec<DrawCommand>,
    StringTooLong,
>)
    ensures
        match outcome {
            Ok(commands) => Ok::<Seq<DrawCommand>, StringTooLong>(commands@)
                == flood_fill_request_commands(*request),
            Err(error) => Err::<Seq<DrawCommand>, StringTooLong>(error)
                == flood_fill_request_commands(*request),
        },
{
    let mut commands: Vec<DrawCommand> = Vec::new();
    if field_is_not_none(request.fill_character.as_str()) {
        match valid_character(request.fill_character.as_str()) {
            Ok(character) => {
                let flood_fill_command = DrawCommand {
                    name: CommandName::FloodFill,
                    position: request.position,
                    dimensions: None,
                    character,
                };
                commands.push(flood_fill_command);
            },
            Err(error) => {
                return Err(error);
            },
        }
    }
    Ok(commands)
}

} // verus!
