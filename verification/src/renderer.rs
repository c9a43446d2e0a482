//! What renders images in a terminal.

use vstd::prelude::*;

use crate::cli::BackendChoice;
use crate::numbers::{least, max_u16, min_u16, most};
use crate::text::joined;
use crate::ui::{center, centered, Rect, Size};

verus! {

/// What a renderer can do.
#[derive(Debug, PartialEq, Eq)]
pub struct RendererCapabilities {
    pub backend_id: String,
    pub protocol: String,
    pub graphics_protocol: bool,
}

impl Clone for RendererCapabilities {
    fn clone(&self) -> (copy: Self)
        ensures
            copy.backend_id@ == self.backend_id@,
            copy.protocol@ == self.protocol@,
            copy.graphics_protocol == self.graphics_protocol,
    {
        RendererCapabilities {
            backend_id: self.backend_id.as_str().to_owned(),
            protocol: self.protocol.as_str().to_owned(),
            graphics_protocol: self.graphics_protocol,
        }
    }
}

/// What renders images in a terminal.
pub trait ImageRenderer {
    /// The name of the renderer.
    fn backend_id(&self) -> &str;

    /// Finds out what the terminal can do, or why it cannot show images.
    fn preflight(&mut self) -> Result<RendererCapabilities, String>;

    /// Forgets what was rendered.
    fn clear(&mut self) -> Result<(), String>;
}

/// The name of a renderer.
pub open spec fn label_of(choice: BackendChoice) -> Seq<char> {
    match choice {
        BackendChoice::Auto => "auto"@,
        BackendChoice::Native => "native"@,
        BackendChoice::Chafa => "chafa"@,
        BackendChoice::Kitty => "kitty"@,
        BackendChoice::Sixel => "sixel"@,
    }
}

pub fn backend_label(choice: BackendChoice) -> (label: &'static str)
    ensures
        label@ == label_of(choice),
{
    match choice {
        BackendChoice::Auto => "auto",
        BackendChoice::Native => "native",
        BackendChoice::Chafa => "chafa",
        BackendChoice::Kitty => "kitty",
        BackendChoice::Sixel => "sixel",
    }
}

/// A way of showing images in a terminal.
#[derive(Debug, Clone, Copy, PartialEq, Eq, Structural)]
pub enum ProtocolType {
    Halfblocks,
    Sixel,
    Kitty,
    Iterm2,
}

impl ProtocolType {
    /// The name of the protocol.
    pub open spec fn name(self) -> Seq<char> {
        match self {
            ProtocolType::Halfblocks => "Halfblocks"@,
            ProtocolType::Sixel => "Sixel"@,
            ProtocolType::Kitty => "Kitty"@,
            ProtocolType::Iterm2 => "Iterm2"@,
        }
    }

    pub fn as_str(&self) -> (text: &'static str)
        ensures
            text@ == self.name(),
    {
        match self {
            ProtocolType::Halfblocks => "Halfblocks",
            ProtocolType::Sixel => "Sixel",
            ProtocolType::Kitty => "Kitty",
            ProtocolType::Iterm2 => "Iterm2",
        }
    }
}

/// The protocol that a choice of renderer forces.
pub fn forced_protocol(choice: BackendChoice) -> (protocol: Option<ProtocolType>)
    ensures
        protocol == forced_by(choice),
{
    match choice {
        BackendChoice::Kitty => Some(ProtocolType::Kitty),
        BackendChoice::Sixel => Some(ProtocolType::Sixel),
        _ => None,
    }
}

/// The protocol that a choice of renderer forces.
pub open spec fn forced_by(choice: BackendChoice) -> Option<ProtocolType> {
    match choice {
        BackendChoice::Kitty => Some(ProtocolType::Kitty),
        BackendChoice::Sixel => Some(ProtocolType::Sixel),
        _ => None,
    }
}

/// The protocol that is used: the forced one, else the one that the terminal
/// answered with; half blocks where it did not answer and they are allowed.
pub open spec fn used_protocol(
    choice: BackendChoice,
    detected: Option<ProtocolType>,
    allow_symbol_fallback: bool,
) -> Option<ProtocolType> {
    if detected is None && !allow_symbol_fallback {
        None
    } else {
        match forced_by(choice) {
            Some(protocol) => Some(protocol),
            None => match detected {
                Some(protocol) => Some(protocol),
                None => Some(ProtocolType::Halfblocks),
            },
        }
    }
}

/// Why a terminal cannot show images.
#[derive(Debug, Clone, Copy, PartialEq, Eq, Structural)]
pub enum PreflightError {
    /// The terminal did not answer.
    NothingDetected,
    /// Only half blocks are left, which are not allowed.
    OnlyHalfblocks,
}

/// Whether a terminal can show images with what it answered.
pub open spec fn preflight_of(
    choice: BackendChoice,
    detected: Option<ProtocolType>,
    allow_symbol_fallback: bool,
) -> Result<ProtocolType, PreflightError> {
    match used_protocol(choice, detected, allow_symbol_fallback) {
        None => Err(PreflightError::NothingDetected),
        Some(protocol) => if protocol == ProtocolType::Halfblocks && !allow_symbol_fallback {
            Err(PreflightError::OnlyHalfblocks)
        } else {
            Ok(protocol)
        },
    }
}

/// What a renderer can do with what the terminal answered.
pub fn preflight(
    choice: BackendChoice,
    detected: Option<ProtocolType>,
    allow_symbol_fallback: bool,
) -> (outcome: Result<RendererCapabilities, PreflightError>)
    ensures
        match outcome {
            Ok(capabilities) => preflight_of(choice, detected, allow_symbol_fallback) matches Ok(
                protocol,
            ) && capabilities.backend_id@ == "native:"@ + protocol.name()
                && capabilities.protocol@ == protocol.name() && capabilities.graphics_protocol
                == (protocol != ProtocolType::Halfblocks),
            Err(error) => preflight_of(choice, detected, allow_symbol_fallback) == Err::<
                ProtocolType,
                PreflightError,
            >(error),
        },
{
    let answered = match detected {
        Some(protocol) => protocol,
        None => {
            if !allow_symbol_fallback {
                return Err(PreflightError::NothingDetected);
            }
            ProtocolType::Halfblocks
        },
    };
    let protocol = match forced_protocol(choice) {
        Some(protocol) => protocol,
        None => answered,
    };
    if protocol == ProtocolType::Halfblocks && !allow_symbol_fallback {
        return Err(PreflightError::OnlyHalfblocks);
    }
    Ok(
        RendererCapabilities {
            backend_id: joined("native:", protocol.as_str()),
            protocol: protocol.as_str().to_owned(),
            graphics_protocol: protocol != ProtocolType::Halfblocks,
        },
    )
}

/// Whether a terminal viewer can start: with graphics, or where symbols will do.
pub fn renderer_usable(
    graphics_protocol: bool,
    allow_symbol_fallback: bool,
    choice: BackendChoice,
) -> (usable: bool)
    ensures
        usable == (graphics_protocol || allow_symbol_fallback || choice == BackendChoice::Chafa),
{
    graphics_protocol || allow_symbol_fallback || choice == BackendChoice::Chafa
}

/// The place of an image in the middle of an area; it has at least one cell.
pub fn centered_rect(area: Rect, size: Size) -> (rect: Rect)
    requires
        area.valid(),
    ensures
        rect == centered(
            area,
            most(least(size.width as int, area.width as int), 1),
            most(least(size.height as int, area.height as int), 1),
        ),
{
    let width: u16 = max_u16(min_u16(size.width, area.width), 1);
    let height: u16 = max_u16(min_u16(size.height, area.height), 1);
    center(area, width, height)
}

/// A terminal that did not answer, or that has half blocks alone, is used only where
/// symbols are allowed; a choice of Kitty or Sixel is kept whatever else it answered, and
/// otherwise what it answered is used.
pub proof fn law_protocols_are_chosen(choice: BackendChoice, detected: ProtocolType, allow: bool)
    ensures
        choice == BackendChoice::Kitty ==> preflight_of(choice, Some(detected), allow) == Ok::<
            ProtocolType,
            PreflightError,
        >(ProtocolType::Kitty),
        choice == BackendChoice::Sixel ==> preflight_of(choice, Some(detected), allow) == Ok::<
            ProtocolType,
            PreflightError,
        >(ProtocolType::Sixel),
        choice != BackendChoice::Kitty && choice != BackendChoice::Sixel && (allow || detected
            != ProtocolType::Halfblocks) ==> preflight_of(choice, Some(detected), allow) == Ok::<
            ProtocolType,
            PreflightError,
        >(detected),
        choice != BackendChoice::Kitty && choice != BackendChoice::Sixel && !allow && detected
            == ProtocolType::Halfblocks ==> preflight_of(choice, Some(detected), allow) == Err::<
            ProtocolType,
            PreflightError,
        >(PreflightError::OnlyHalfblocks),
        preflight_of(choice, None, false) == Err::<ProtocolType, PreflightError>(
            PreflightError::NothingDetected,
        ),
        choice == BackendChoice::Auto ==> preflight_of(choice, None, true) == Ok::<
            ProtocolType,
            PreflightError,
        >(ProtocolType::Halfblocks),
        choice == BackendChoice::Kitty ==> preflight_of(choice, None, true) == Ok::<
            ProtocolType,
            PreflightError,
        >(ProtocolType::Kitty),
{
}

} // verus!
