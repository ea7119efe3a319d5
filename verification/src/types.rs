use vstd::prelude::*;

verus! {

/// The file format an export is written in.
#[derive(Clone, Copy, Debug, PartialEq, Eq, Structural)]
pub enum SaveFormat {
    PNG,
    SVG,
}

/// How the modules of the preview are drawn.
#[derive(Clone, Copy, Debug, PartialEq, Eq, Structural)]
pub enum ModuleShape {
    SQUARE,
    ROUNDED,
}

/// The four error-correction levels of a QR symbol.
#[derive(Clone, Copy, Debug, PartialEq, Eq, Structural)]
pub enum EcLevel {
    L,
    M,
    Q,
    H,
}

/// An 8-bit sRGB color with straight (not premultiplied) alpha: the color as the
/// user picked it, and the bytes an export writes for it.
#[derive(Clone, Copy, Debug, PartialEq, Eq, Structural)]
pub struct Rgba {
    pub r: u8,
    pub g: u8,
    pub b: u8,
    pub a: u8,
}

/// The one-letter code under which a level is written into the history.
pub open spec fn level_code(level: EcLevel) -> Seq<char> {
    match level {
        EcLevel::L => seq!['L'],
        EcLevel::M => seq!['M'],
        EcLevel::Q => seq!['Q'],
        EcLevel::H => seq!['H'],
    }
}

/// The level a history code stands for; any code but "L", "M" and "Q" reads as `H`.
pub open spec fn level_from_code(code: Seq<char>) -> EcLevel {
    if code == seq!['L'] {
        EcLevel::L
    } else if code == seq!['M'] {
        EcLevel::M
    } else if code == seq!['Q'] {
        EcLevel::Q
    } else {
        EcLevel::H
    }
}

/// A code is valid when it is the code of some level.
pub open spec fn is_level_code(code: Seq<char>) -> bool {
    exists|l: EcLevel| level_code(l) == code
}

impl EcLevel {
    /// The one-letter code of this level: "L", "M", "Q" or "H".
    pub fn code(&self) -> (res: &'static str)
        ensures
            res@ == level_code(*self),
    {
        match self {
            EcLevel::L => {
                proof {
                    reveal_strlit("L");
                }
                "L"
            },
            EcLevel::M => {
                proof {
                    reveal_strlit("M");
                }
                "M"
            },
            EcLevel::Q => {
                proof {
                    reveal_strlit("Q");
                }
                "Q"
            },
            EcLevel::H => {
                proof {
                    reveal_strlit("H");
                }
                "H"
            },
        }
    }

    /// Reads a level back from its history code; an unknown code gives `H`.
    pub fn from_code(code: &str) -> (res: EcLevel)
        ensures
            res == level_from_code(code@),
    {
        if code.unicode_len() != 1 {
            proof {
                assert(code@ != seq!['L'] && code@ != seq!['M'] && code@ != seq!['Q']);
            }
            return EcLevel::H;
        }
        let c = code.get_char(0);
        proof {
            assert(code@ =~= seq![c]);
        }
        if c == 'L' {
            EcLevel::L
        } else if c == 'M' {
            EcLevel::M
        } else if c == 'Q' {
            EcLevel::Q
        } else {
            EcLevel::H
        }
    }
}

/// Reading back the code of a level gives that level.
pub proof fn lemma_level_code_roundtrip(level: EcLevel)
    ensures
        level_from_code(level_code(level)) == level,
        is_level_code(level_code(level)),
{
    assert(seq!['M'] != seq!['L']) by {
        assert(seq!['M'][0] != seq!['L'][0]);
    }
    assert(seq!['Q'] != seq!['L'] && seq!['Q'] != seq!['M']) by {
        assert(seq!['Q'][0] != seq!['L'][0]);
        assert(seq!['Q'][0] != seq!['M'][0]);
    }
    assert(seq!['H'] != seq!['L'] && seq!['H'] != seq!['M'] && seq!['H'] != seq!['Q']) by {
        assert(seq!['H'][0] != seq!['L'][0]);
        assert(seq!['H'][0] != seq!['M'][0]);
        assert(seq!['H'][0] != seq!['Q'][0]);
    }
}

/// Any valid code is the code of the level it reads as.
pub proof fn lemma_level_code_valid(code: Seq<char>)
    requires
        is_level_code(code),
    ensures
        level_code(level_from_code(code)) == code,
{
    let l = choose|l: EcLevel| level_code(l) == code;
    lemma_level_code_roundtrip(l);
}

impl EcLevel {
    /// The caption of this level in the level chooser, with the share of damaged
    /// blocks it recovers from.
    pub fn description(&self) -> (res: &'static str)
        ensures
            res@ == (match *self {
                EcLevel::L => "L — Low (7%)"@,
                EcLevel::M => "M — Medium (15%)"@,
                EcLevel::Q => "Q — Quartile (25%)"@,
                EcLevel::H => "H — High (30%)"@,
            }),
    {
        match self {
            EcLevel::L => "L — Low (7%)",
            EcLevel::M => "M — Medium (15%)",
            EcLevel::Q => "Q — Quartile (25%)",
            EcLevel::H => "H — High (30%)",
        }
    }
}

impl ModuleShape {
    /// The caption of this shape in the shape chooser.
    pub fn label(&self) -> (res: &'static str)
        ensures
            res@ == (match *self {
                ModuleShape::SQUARE => "Squared"@,
                ModuleShape::ROUNDED => "Rounded"@,
            }),
    {
        match self {
            ModuleShape::SQUARE => "Squared",
            ModuleShape::ROUNDED => "Rounded",
        }
    }
}

/// The sizes, in pixels, a PNG export can be made at.
pub fn export_size_choices() -> (res: Vec<u32>)
    ensures
        res@ == seq![256u32, 512u32, 1024u32, 2048u32],
{
    let mut v: Vec<u32> = Vec::new();
    v.push(256);
    v.push(512);
    v.push(1024);
    v.push(2048);
    v
}

impl SaveFormat {
    /// The file extension of this format.
    pub fn extension(&self) -> (res: &'static str)
        ensures
            res@ == (match *self {
                SaveFormat::PNG => "png"@,
                SaveFormat::SVG => "svg"@,
            }),
    {
        match self {
            SaveFormat::PNG => "png",
            SaveFormat::SVG => "svg",
        }
    }

    /// The name the save dialog proposes: "qrcode." followed by the extension.
    pub fn default_file_name(&self) -> (res: &'static str)
        ensures
            res@ == (match *self {
                SaveFormat::PNG => "qrcode.png"@,
                SaveFormat::SVG => "qrcode.svg"@,
            }),
    {
        match self {
            SaveFormat::PNG => "qrcode.png",
            SaveFormat::SVG => "qrcode.svg",
        }
    }
}

} // verus!
