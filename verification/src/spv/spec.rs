//! The instruction vocabulary of the SPIR-V dialect, as far as this library
//! needs it: opcodes, which tag every instruction, type and constant that
//! came from a SPIR-V module, and operand kinds, which tag immediates.

use vstd::prelude::*;

verus! {

/// The number that selects a SPIR-V instruction.
///
/// Any 16-bit value is an opcode, whether or not [`Opcode::name`] knows it:
/// instructions are carried through the library by their opcode alone.
#[derive(Copy, Clone, PartialEq, Eq, Structural, Debug, Hash)]
pub struct Opcode(pub u16);

/// The kind of a SPIR-V operand, as numbered by the SPIR-V grammar.
#[derive(Copy, Clone, PartialEq, Eq, Structural, Debug, Hash)]
pub struct OperandKind(pub u16);

/// The name that every opcode without an entry below goes by.
pub open spec fn unnamed_opcode() -> Seq<char> {
    "OpUnknown"@
}

/// The name of the instruction with the given opcode.
///
/// Named are the instructions that shape a module: its header and debug
/// instructions, annotations, type and constant declarations, functions and
/// their control flow. Every other opcode maps to [`unnamed_opcode`].
pub open spec fn opcode_name(opcode: u16) -> Seq<char> {
    match opcode {
        0 => "OpNop"@,
        1 => "OpUndef"@,
        2 => "OpSourceContinued"@,
        3 => "OpSource"@,
        4 => "OpSourceExtension"@,
        5 => "OpName"@,
        6 => "OpMemberName"@,
        7 => "OpString"@,
        8 => "OpLine"@,
        10 => "OpExtension"@,
        11 => "OpExtInstImport"@,
        12 => "OpExtInst"@,
        14 => "OpMemoryModel"@,
        15 => "OpEntryPoint"@,
        16 => "OpExecutionMode"@,
        17 => "OpCapability"@,
        19 => "OpTypeVoid"@,
        20 => "OpTypeBool"@,
        21 => "OpTypeInt"@,
        22 => "OpTypeFloat"@,
        23 => "OpTypeVector"@,
        24 => "OpTypeMatrix"@,
        25 => "OpTypeImage"@,
        26 => "OpTypeSampler"@,
        27 => "OpTypeSampledImage"@,
        28 => "OpTypeArray"@,
        29 => "OpTypeRuntimeArray"@,
        30 => "OpTypeStruct"@,
        31 => "OpTypeOpaque"@,
        32 => "OpTypePointer"@,
        33 => "OpTypeFunction"@,
        41 => "OpConstantTrue"@,
        42 => "OpConstantFalse"@,
        43 => "OpConstant"@,
        44 => "OpConstantComposite"@,
        45 => "OpConstantSampler"@,
        46 => "OpConstantNull"@,
        48 => "OpSpecConstantTrue"@,
        49 => "OpSpecConstantFalse"@,
        50 => "OpSpecConstant"@,
        51 => "OpSpecConstantComposite"@,
        52 => "OpSpecConstantOp"@,
        54 => "OpFunction"@,
        55 => "OpFunctionParameter"@,
        56 => "OpFunctionEnd"@,
        57 => "OpFunctionCall"@,
        59 => "OpVariable"@,
        61 => "OpLoad"@,
        62 => "OpStore"@,
        65 => "OpAccessChain"@,
        71 => "OpDecorate"@,
        72 => "OpMemberDecorate"@,
        248 => "OpLabel"@,
        249 => "OpBranch"@,
        250 => "OpBranchConditional"@,
        251 => "OpSwitch"@,
        252 => "OpKill"@,
        253 => "OpReturn"@,
        254 => "OpReturnValue"@,
        255 => "OpUnreachable"@,
        317 => "OpNoLine"@,
        330 => "OpModuleProcessed"@,
        _ => unnamed_opcode(),
    }
}

impl Opcode {
    /// Wraps the 16-bit value found in the low half of an instruction's first word.
    pub fn new(opcode: u16) -> (op: Opcode)
        ensures
            op == Opcode(opcode),
    {
        Opcode(opcode)
    }

    /// The 16-bit value of this opcode.
    pub fn as_u16(&self) -> (opcode: u16)
        ensures
            opcode == self.0,
    {
        self.0
    }

    /// The instruction's name, see [`opcode_name`].
    pub fn name(&self) -> (name: &'static str)
        ensures
            name@ == opcode_name(self.0),
    {
        match self.0 {
            0 => "OpNop",
            1 => "OpUndef",
            2 => "OpSourceContinued",
            3 => "OpSource",
            4 => "OpSourceExtension",
            5 => "OpName",
            6 => "OpMemberName",
            7 => "OpString",
            8 => "OpLine",
            10 => "OpExtension",
            11 => "OpExtInstImport",
            12 => "OpExtInst",
            14 => "OpMemoryModel",
            15 => "OpEntryPoint",
            16 => "OpExecutionMode",
            17 => "OpCapability",
            19 => "OpTypeVoid",
            20 => "OpTypeBool",
            21 => "OpTypeInt",
            22 => "OpTypeFloat",
            23 => "OpTypeVector",
            24 => "OpTypeMatrix",
            25 => "OpTypeImage",
            26 => "OpTypeSampler",
            27 => "OpTypeSampledImage",
            28 => "OpTypeArray",
            29 => "OpTypeRuntimeArray",
            30 => "OpTypeStruct",
            31 => "OpTypeOpaque",
            32 => "OpTypePointer",
            33 => "OpTypeFunction",
            41 => "OpConstantTrue",
            42 => "OpConstantFalse",
            43 => "OpConstant",
            44 => "OpConstantComposite",
            45 => "OpConstantSampler",
            46 => "OpConstantNull",
            48 => "OpSpecConstantTrue",
            49 => "OpSpecConstantFalse",
            50 => "OpSpecConstant",
            51 => "OpSpecConstantComposite",
            52 => "OpSpecConstantOp",
            54 => "OpFunction",
            55 => "OpFunctionParameter",
            56 => "OpFunctionEnd",
            57 => "OpFunctionCall",
            59 => "OpVariable",
            61 => "OpLoad",
            62 => "OpStore",
            65 => "OpAccessChain",
            71 => "OpDecorate",
            72 => "OpMemberDecorate",
            248 => "OpLabel",
            249 => "OpBranch",
            250 => "OpBranchConditional",
            251 => "OpSwitch",
            252 => "OpKill",
            253 => "OpReturn",
            254 => "OpReturnValue",
            255 => "OpUnreachable",
            317 => "OpNoLine",
            330 => "OpModuleProcessed",
            _ => "OpUnknown",
        }
    }
}

} // verus!
