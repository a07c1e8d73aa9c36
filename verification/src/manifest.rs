//! What a platform's entry in the manifest says of the device.

use vstd::prelude::*;

verus! {

/// Everything the manifest says of one platform.
#[derive(Debug)]
pub struct PlatformSpecification {
    pub device: PresetDefinition,
    pub port_map: PlatformPortMapping,
    pub metadata: Metdata,
    pub rom: ROMName,
}

/// The files that hold a platform's program and melody, and the platform whose archive
/// holds them where that is another one.
#[derive(Debug)]
pub struct ROMName {
    pub rom: String,
    pub melody: Option<String>,
    pub rom_owner: Option<String>,
}

/// Who made a device, what it is called and when it came out. The year is text, as some
/// years are only partly known.
#[derive(Debug)]
pub struct Metdata {
    pub year: String,
    pub name: String,
    pub company: String,
}

/// The processor and the screens of a device.
#[derive(Debug)]
pub struct PresetDefinition {
    pub cpu: CPUType,
    pub screen: Screen,
}

/// The processor of a device.
#[derive(PartialEq, Eq, Structural, Clone, Copy, Debug)]
pub enum CPUType {
    SM5a,
    KB1013VK12,
    SM510,
    SM511,
    SM512,
    SM530,
    SM510Tiger,
    SM511Tiger1Bit,
    SM511Tiger2Bit,
}

/// How many screens a device has, how they lie, and their sizes.
#[derive(PartialEq, Eq, Structural, Clone, Copy, Debug)]
pub enum Screen {
    Single { width: u16, height: u16 },
    DualVertical { top: Size, bottom: Size },
    DualHorizontal { left: Size, right: Size },
}

/// The size of one screen, in whole units.
#[derive(PartialEq, Eq, Structural, Clone, Copy, Debug)]
pub struct Size {
    pub width: u16,
    pub height: u16,
}

/// The input ports of a device and what each of their bits does.
#[derive(Debug)]
pub struct PlatformPortMapping {
    pub ports: Vec<Port>,
    pub inherits: Option<String>,
}

/// One input port.
#[derive(Debug)]
pub enum Port {
    S { index: usize, bitmap: [Option<NamedAction>; 4] },
    ACL { bit: Option<NamedAction> },
    B { bit: Option<NamedAction> },
    BA { bit: Option<NamedAction> },
}

/// What one bit of a port does, and whether it is active when low.
#[derive(Clone, Debug)]
pub struct NamedAction {
    pub action: Action,
    pub active_low: bool,
    pub name: Option<String>,
}

/// What an input does.
#[derive(PartialEq, Eq, Structural, Clone, Copy, Debug)]
pub enum Action {
    JoyUp,
    JoyDown,
    JoyLeft,
    JoyRight,
    LeftJoyUp,
    LeftJoyDown,
    LeftJoyLeft,
    LeftJoyRight,
    RightJoyUp,
    RightJoyDown,
    RightJoyLeft,
    RightJoyRight,
    Button1,
    Button2,
    Button3,
    Button4,
    Button5,
    Button6,
    Button7,
    Button8,
    Select,
    Start1,
    Start2,
    Service1,
    Service2,
    VolumeDown,
    PowerOn,
    PowerOff,
    Keypad,
    Custom,
    Unused,
}

} // verus!
