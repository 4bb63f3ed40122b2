//! The rectangle route: from its request to drawing commands.

use crate::drawing_app::canvas::{Dimensions, Point};
use crate::drawing_app::commands::{CommandName, DrawCommand};
use crate::server::handlers::errors::StringTooLong;
use crate::server::handlers::request::DrawRectangleOperation;
use crate::server::handlers::utils::{field_is_not_none, is_none, valid_character};
use vstd::prelude::*;

verus! {

/// The commands that one character field asks for: none where the field is
/// the word "none", one command with the field's character where it holds
/// exactly one, and an error otherwise.
pub open spec fn commands_of_field(
    field: Seq<char>,
    name: CommandName,
    position: Point,
    dimensions: Option<Dimensions>,
) -> Result<Seq<DrawCommand>, StringTooLong> {
    if is_none(field) {
        Ok(Seq::empty())
    } else if field.len() == 1 {
        Ok(seq![DrawCommand { name, position, dimensions, character: field[0] }])
    } else {
        Err(StringTooLong)
    }
}

/// The commands that a rectangle request asks for: the filling first, then
/// the outline, each unless its field is the word "none".
pub open spec fn rectangle_commands(request: DrawRectangleOperation) -> Result<
    Seq<DrawCommand>,
    StringTooLong,
> {
    match commands_of_field(
        request.fill_character@,
        CommandName::FillRectangle,
        request.position,
        Some(request.dimensions),
    ) {
        Ok(fill) => match commands_of_field(
            request.outline_character@,
            CommandName::OutlineRectangle,
            request.position,
            Some(request.dimensions),
        ) {
            Ok(outline) => Ok(fill + outline),
            Err(error) => Err(error),
        },
        Err(error) => Err(error),
    }
}

/// The command of the given kind for the rectangle of the request.
fn rectangle_command(name: CommandName, request: &DrawRectangleOperation, character: char) -> (command:
    DrawCommand)
    ensures
        command == (DrawCommand {
            name,
            position: request.position,
            dimensions: Some(request.dimensions),
            character,
        }),
{
    DrawCommand {
        name,
        position: request.position,
        dimensions: Some(request.dimensions),
        character,
    }
}

/// Turns a rectangle request into the commands to draw. A field that is
/// neither the word "none" nor one single character fails the request.
pub fn draw_rectangle_commands(request: &DrawRectangleOperation) -> (outcome: Result<
    Vec<DrawCommand>,
    StringTooLong,
>)
    ensures
        match outcome {
            Ok(drawn) => Ok::<Seq<DrawCommand>, StringTooLong>(drawn@) == rectangle_commands(
                *request,
            ),
            Err(error) => Err::<Seq<DrawCommand>, StringTooLong>(error) == rectangle_commands(
                *request,
            ),
        },
{
    let mut commands: Vec<DrawCommand> = Vec::new();
    if field_is_not_none(request.fill_character.as_str()) {
        match valid_character(request.fill_character.as_str()) {
            Ok(character) => {
                let fill_rectangle_command = rectangle_command(
                    CommandName::FillRectangle,
                    request,
                    character,
                );
                commands.push(fill_rectangle_command);
            },
            Err(error) => {
                return Err(error);
            },
        }
    }
    let ghost filled = commands@;
    if field_is_not_none(request.outline_character.as_str()) {
        match valid_character(request.outline_character.as_str()) {
            Ok(character) => {
                let outline_rectangle_command = rectangle_command(
                    CommandName::OutlineRectangle,
                    request,
                    character,
                );
                commands.push(outline_rectangle_command);
            },
            Err(error) => {
                return Err(error);
            },
        }
    }
    proof {
        let outlined = commands_of_field(
            request.outline_character@,
            CommandName::OutlineRectangle,
            request.position,
            Some(request.dimensions),
        );
        assert(commands@ =~= filled + outlined->Ok_0);
    }
    Ok(commands)
}

} // verus!
