//! Compiler settings and compiled chunks.

use vstd::prelude::*;
use vstd::std_specs::convert::TryFromSpecImpl;

verus! {

/// How hard the compiler optimises.
#[derive(Debug, Clone, Copy, PartialEq, Eq, Structural)]
pub enum OptLevel {
    Off,
    Basic,
    Full,
}

impl Default for OptLevel {
    fn default() -> (level: OptLevel)
        ensures
            level == OptLevel::Basic,
    {
        OptLevel::Basic
    }
}

impl OptLevel {
    /// The number the engine knows this level by.
    pub open spec fn spec_level(self) -> u8 {
        match self {
            OptLevel::Off => 0,
            OptLevel::Basic => 1,
            OptLevel::Full => 2,
        }
    }

    /// The number the engine knows this level by.
    pub fn level(self) -> (n: u8)
        ensures
            n == self.spec_level(),
    {
        match self {
            OptLevel::Off => 0,
            OptLevel::Basic => 1,
            OptLevel::Full => 2,
        }
    }
}

impl TryFrom<u8> for OptLevel {
    type Error = ();

    fn try_from(value: u8) -> (r: Result<OptLevel, ()>) {
        match value {
            0 => Ok(OptLevel::Off),
            1 => Ok(OptLevel::Basic),
            2 => Ok(OptLevel::Full),
            _ => Err(()),
        }
    }
}

impl TryFromSpecImpl<u8> for OptLevel {
    open spec fn obeys_try_from_spec() -> bool {
        true
    }

    open spec fn try_from_spec(value: u8) -> Result<OptLevel, ()> {
        if value == 0 {
            Ok(OptLevel::Off)
        } else if value == 1 {
            Ok(OptLevel::Basic)
        } else if value == 2 {
            Ok(OptLevel::Full)
        } else {
            Err(())
        }
    }
}

/// How much debug information the compiler keeps.
#[derive(Debug, Clone, Copy, PartialEq, Eq, Structural)]
pub enum DebugLevel {
    Off,
    Basic,
    Full,
}

impl Default for DebugLevel {
    fn default() -> (level: DebugLevel)
        ensures
            level == DebugLevel::Basic,
    {
        DebugLevel::Basic
    }
}

impl DebugLevel {
    /// The number the engine knows this level by.
    pub open spec fn spec_level(self) -> u8 {
        match self {
            DebugLevel::Off => 0,
            DebugLevel::Basic => 1,
            DebugLevel::Full => 2,
        }
    }

    /// The number the engine knows this level by.
    pub fn level(self) -> (n: u8)
        ensures
            n == self.spec_level(),
    {
        match self {
            DebugLevel::Off => 0,
            DebugLevel::Basic => 1,
            DebugLevel::Full => 2,
        }
    }
}

impl TryFrom<u8> for DebugLevel {
    type Error = ();

    fn try_from(value: u8) -> (r: Result<DebugLevel, ()>) {
        match value {
            0 => Ok(DebugLevel::Off),
            1 => Ok(DebugLevel::Basic),
            2 => Ok(DebugLevel::Full),
            _ => Err(()),
        }
    }
}

impl TryFromSpecImpl<u8> for DebugLevel {
    open spec fn obeys_try_from_spec() -> bool {
        true
    }

    open spec fn try_from_spec(value: u8) -> Result<DebugLevel, ()> {
        if value == 0 {
            Ok(DebugLevel::Off)
        } else if value == 1 {
            Ok(DebugLevel::Basic)
        } else if value == 2 {
            Ok(DebugLevel::Full)
        } else {
            Err(())
        }
    }
}

/// The settings a chunk is compiled with.
#[derive(Debug, Clone, Copy, PartialEq, Eq, Structural)]
pub struct Compiler {
    opt_level: OptLevel,
    dbg_level: DebugLevel,
}

impl Default for Compiler {
    fn default() -> (compiler: Compiler)
        ensures
            compiler.opt() == OptLevel::Basic,
            compiler.dbg() == DebugLevel::Basic,
    {
        Compiler { opt_level: OptLevel::Basic, dbg_level: DebugLevel::Basic }
    }
}

impl Compiler {
    /// The optimisation level of these settings.
    pub closed spec fn opt(self) -> OptLevel {
        self.opt_level
    }

    /// The debug level of these settings.
    pub closed spec fn dbg(self) -> DebugLevel {
        self.dbg_level
    }

    /// These settings with the optimisation level replaced.
    pub fn with_opt_level(self, opt_level: OptLevel) -> (compiler: Compiler)
        ensures
            compiler.opt() == opt_level,
            compiler.dbg() == self.dbg(),
    {
        Compiler { opt_level, dbg_level: self.dbg_level }
    }

    /// These settings with the debug level replaced.
    pub fn with_dbg_level(self, dbg_level: DebugLevel) -> (compiler: Compiler)
        ensures
            compiler.opt() == self.opt(),
            compiler.dbg() == dbg_level,
    {
        Compiler { opt_level: self.opt_level, dbg_level }
    }

    /// The optimisation level of these settings.
    pub fn opt_level(&self) -> (level: OptLevel)
        ensures
            level == self.opt(),
    {
        self.opt_level
    }

    /// The debug level of these settings.
    pub fn dbg_level(&self) -> (level: DebugLevel)
        ensures
            level == self.dbg(),
    {
        self.dbg_level
    }
}

/// A compiled chunk, as the bytes the engine loads.
#[derive(Debug)]
pub struct Bytecode {
    bytes: Vec<u8>,
}

impl View for Bytecode {
    type V = Seq<u8>;

    closed spec fn view(&self) -> Seq<u8> {
        self.bytes@
    }
}

impl Bytecode {
    /// The chunk that `bytes` holds.
    pub fn new(bytes: Vec<u8>) -> (code: Bytecode)
        ensures
            code@ == bytes@,
    {
        Bytecode { bytes }
    }

    /// The bytes of the chunk.
    pub fn inner(&self) -> (bytes: &[u8])
        ensures
            bytes@ == self@,
    {
        self.bytes.as_slice()
    }
}

} // verus!
