//! The settings of the target.
//!
//! The baseline is POWER8 (ISA 2.07): the first little-endian-capable generation,
//! and the baseline assumed by distributions. The vector facilities are therefore
//! always available and have no flags of their own; only later facilities do.
use vstd::prelude::*;
use crate::ir::Ppc64Flags;

verus! {

/// A setting that is on or off.
#[derive(Debug)]
pub struct BoolSetting {
    pub name: String,
    pub description: String,
    pub comment: String,
    pub default: bool,
}

/// A processor, and which of the settings it turns on, in the order of the
/// settings.
#[derive(Debug)]
pub struct Preset {
    pub name: String,
    pub description: String,
    pub values: Vec<bool>,
}

/// The settings of a target.
#[derive(Debug)]
pub struct SettingGroup {
    pub name: String,
    pub settings: Vec<BoolSetting>,
    pub presets: Vec<Preset>,
}

/// The settings of this target: the facilities of ISA 3.0 and ISA 3.1, both off
/// by default, and the processors that have them. The processors are cumulative:
/// each generation implies the facilities of the one before it.
pub fn define() -> (g: SettingGroup)
    ensures
        g.name@ == "ppc64"@,
        g.settings@.len() == 2,
        g.settings@[0].name@ == "has_isa_3_0"@,
        g.settings@[0].description@ == "Has ISA 3.0 (POWER9) instruction support."@,
        g.settings@[0].comment@ == "Enables the modulo instructions (modsd/modud), setb, darn, and the ISA 3.0 scalar floating-point conversions."@,
        !g.settings@[0].default,
        g.settings@[1].name@ == "has_isa_3_1"@,
        g.settings@[1].description@ == "Has ISA 3.1 (POWER10) instruction support."@,
        g.settings@[1].comment@ == "Enables prefixed instructions, most importantly PC-relative addressing via paddi/pld, which removes the need to materialize addresses through immediate sequences or a TOC."@,
        !g.settings@[1].default,
        g.presets@.len() == 2,
        g.presets@[0].name@ == "power9"@,
        g.presets@[0].description@ == "IBM POWER9 processor."@,
        g.presets@[0].values@ == seq![true, false],
        g.presets@[1].name@ == "power10"@,
        g.presets@[1].description@ == "IBM POWER10 processor."@,
        g.presets@[1].values@ == seq![true, true],
        forall|k: int| 0 <= k < 2 ==> (g.presets@[0].values@[k] ==> g.presets@[1].values@[k]),
{
    let mut settings: Vec<BoolSetting> = Vec::new();
    settings.push(
        BoolSetting {
            name: "has_isa_3_0".to_owned(),
            description: "Has ISA 3.0 (POWER9) instruction support.".to_owned(),
            comment: "Enables the modulo instructions (modsd/modud), setb, darn, and the ISA 3.0 scalar floating-point conversions.".to_owned(),
            default: false,
        },
    );
    settings.push(
        BoolSetting {
            name: "has_isa_3_1".to_owned(),
            description: "Has ISA 3.1 (POWER10) instruction support.".to_owned(),
            comment: "Enables prefixed instructions, most importantly PC-relative addressing via paddi/pld, which removes the need to materialize addresses through immediate sequences or a TOC.".to_owned(),
            default: false,
        },
    );
    let mut power9: Vec<bool> = Vec::new();
    power9.push(true);
    power9.push(false);
    let mut power10: Vec<bool> = Vec::new();
    power10.push(true);
    power10.push(true);
    let mut presets: Vec<Preset> = Vec::new();
    presets.push(
        Preset {
            name: "power9".to_owned(),
            description: "IBM POWER9 processor.".to_owned(),
            values: power9,
        },
    );
    presets.push(
        Preset {
            name: "power10".to_owned(),
            description: "IBM POWER10 processor.".to_owned(),
            values: power10,
        },
    );
    SettingGroup { name: "ppc64".to_owned(), settings, presets }
}

/// Why a setting cannot be turned on.
#[derive(Clone, Copy, Debug, PartialEq, Eq, Structural)]
pub enum SettingError {
    BadName,
}

/// The settings that were asked for.
#[derive(Clone, Copy, Debug, PartialEq, Eq, Structural)]
pub struct Builder {
    pub has_isa_3_0: bool,
    pub has_isa_3_1: bool,
}

/// The settings after a name was turned on, or nothing where no setting and no
/// processor has the name.
pub open spec fn enabled(b: Builder, name: Seq<char>) -> Option<Builder> {
    if name == "has_isa_3_0"@ {
        Some(Builder { has_isa_3_0: true, ..b })
    } else if name == "has_isa_3_1"@ {
        Some(Builder { has_isa_3_1: true, ..b })
    } else if name == "power9"@ {
        Some(Builder { has_isa_3_0: true, ..b })
    } else if name == "power10"@ {
        Some(Builder { has_isa_3_0: true, has_isa_3_1: true })
    } else {
        None
    }
}

impl Builder {
    /// The default settings.
    pub fn new() -> (b: Builder)
        ensures
            !b.has_isa_3_0,
            !b.has_isa_3_1,
    {
        Builder { has_isa_3_0: false, has_isa_3_1: false }
    }

    /// Turn on a setting, or all the settings of a processor.
    pub fn enable(&mut self, name: &String) -> (r: Result<(), SettingError>)
        ensures
            match r {
                Ok(()) => enabled(*old(self), name@) == Some(*final(self)),
                Err(e) => {
                    &&& enabled(*old(self), name@) is None
                    &&& e == SettingError::BadName
                    &&& *final(self) == *old(self)
                },
            },
    {
        if *name == "has_isa_3_0".to_owned() || *name == "power9".to_owned() {
            proof {
                reveal_strlit("has_isa_3_0");
                reveal_strlit("has_isa_3_1");
                reveal_strlit("power9");
                reveal_strlit("power10");
                assert("power9"@.len() == 6);
                assert("has_isa_3_1"@[10] == '1');
                assert("has_isa_3_0"@[10] == '0');
            }
            self.has_isa_3_0 = true;
            Ok(())
        } else if *name == "has_isa_3_1".to_owned() {
            self.has_isa_3_1 = true;
            Ok(())
        } else if *name == "power10".to_owned() {
            self.has_isa_3_0 = true;
            self.has_isa_3_1 = true;
            Ok(())
        } else {
            Err(SettingError::BadName)
        }
    }

    /// The flags that the settings come to.
    pub fn flags(&self) -> (f: Ppc64Flags)
        ensures
            f.has_isa_3_0 == self.has_isa_3_0,
            f.has_isa_3_1 == self.has_isa_3_1,
    {
        Ppc64Flags { has_isa_3_0: self.has_isa_3_0, has_isa_3_1: self.has_isa_3_1 }
    }
}

/// A setting and its value.
#[derive(Debug)]
pub struct SettingValue {
    pub name: String,
    pub value: bool,
}

/// The settings of the target and their values.
pub fn flag_values(flags: &Ppc64Flags) -> (v: Vec<SettingValue>)
    ensures
        v@.len() == 2,
        v@[0].name@ == "has_isa_3_0"@,
        v@[0].value == flags.has_isa_3_0,
        v@[1].name@ == "has_isa_3_1"@,
        v@[1].value == flags.has_isa_3_1,
{
    let mut v: Vec<SettingValue> = Vec::new();
    v.push(SettingValue { name: "has_isa_3_0".to_owned(), value: flags.has_isa_3_0 });
    v.push(SettingValue { name: "has_isa_3_1".to_owned(), value: flags.has_isa_3_1 });
    v
}

/// Turning settings on is cumulative: what was on stays on.
pub proof fn law_enable_is_cumulative(b: Builder, name: Seq<char>)
    ensures
        enabled(b, name) matches Some(c) ==> (b.has_isa_3_0 ==> c.has_isa_3_0) && (b.has_isa_3_1
            ==> c.has_isa_3_1),
{
}

} // verus!
