//! The two fixed pattern lists.
use vstd::prelude::*;
use vstd::string::StringSliceAdditionalSpecFns;

verus! {

/// A line longer than this many bytes counts as minified.
pub const MAX_LINE_LENGTH: usize = 500;

/// A substring that correlates with obfuscated or packed JavaScript.
#[derive(Clone, Copy, Debug, PartialEq, Eq, Structural)]
pub enum SuspiciousPattern {
    /// `_0x`: hex-named identifiers.
    HexIdentifier,
    /// `eval(`
    Eval,
    /// `\x`: escaped hex in string literals.
    HexEscape,
    /// `base64`
    Base64,
    /// `fromCharCode`: strings rebuilt from character codes.
    FromCharCode,
    /// `unescape(`
    Unescape,
}

/// A substring known to occur in legitimate minified libraries; a line that
/// holds one is never reported.
#[derive(Clone, Copy, Debug, PartialEq, Eq, Structural)]
pub enum SafePattern {
    /// `!function(e,t)`: the jQuery wrapper.
    FunctionWrapper,
    /// `/*! `: the banner comment of minified libraries.
    LibraryBanner,
    /// `(function(f)`: a common module wrapper.
    ModuleWrapper,
}

/// The suspicious patterns in their fixed order.
pub open spec fn suspicious_order() -> Seq<SuspiciousPattern> {
    seq![
        SuspiciousPattern::HexIdentifier,
        SuspiciousPattern::Eval,
        SuspiciousPattern::HexEscape,
        SuspiciousPattern::Base64,
        SuspiciousPattern::FromCharCode,
        SuspiciousPattern::Unescape,
    ]
}

impl SuspiciousPattern {
    /// The bytes searched for.
    pub open spec fn pattern_bytes(self) -> Seq<u8> {
        match self {
            SuspiciousPattern::HexIdentifier => seq!['_' as u8, '0' as u8, 'x' as u8],
            SuspiciousPattern::Eval => seq!['e' as u8, 'v' as u8, 'a' as u8, 'l' as u8, '(' as u8],
            SuspiciousPattern::HexEscape => seq!['\\' as u8, 'x' as u8],
            SuspiciousPattern::Base64 => seq![
                'b' as u8,
                'a' as u8,
                's' as u8,
                'e' as u8,
                '6' as u8,
                '4' as u8,
            ],
            SuspiciousPattern::FromCharCode => seq![
                'f' as u8,
                'r' as u8,
                'o' as u8,
                'm' as u8,
                'C' as u8,
                'h' as u8,
                'a' as u8,
                'r' as u8,
                'C' as u8,
                'o' as u8,
                'd' as u8,
                'e' as u8,
            ],
            SuspiciousPattern::Unescape => seq![
                'u' as u8,
                'n' as u8,
                'e' as u8,
                's' as u8,
                'c' as u8,
                'a' as u8,
                'p' as u8,
                'e' as u8,
                '(' as u8,
            ],
        }
    }

    /// The pattern as text.
    pub fn text(self) -> (r: &'static str)
        ensures
            r.spec_bytes() == self.pattern_bytes(),
    {
        let r: &'static str = match self {
            SuspiciousPattern::HexIdentifier => "_0x",
            SuspiciousPattern::Eval => "eval(",
            SuspiciousPattern::HexEscape => "\\x",
            SuspiciousPattern::Base64 => "base64",
            SuspiciousPattern::FromCharCode => "fromCharCode",
            SuspiciousPattern::Unescape => "unescape(",
        };
        proof {
            reveal_strlit("_0x");
            reveal_strlit("eval(");
            reveal_strlit("\\x");
            reveal_strlit("base64");
            reveal_strlit("fromCharCode");
            reveal_strlit("unescape(");
            vstd::string::is_ascii_spec_bytes(r);
            assert(r.spec_bytes() =~= self.pattern_bytes());
        }
        r
    }

    /// All suspicious patterns, in their fixed order.
    pub fn all() -> (r: Vec<SuspiciousPattern>)
        ensures
            r@ == suspicious_order(),
    {
        let r = vec![
            SuspiciousPattern::HexIdentifier,
            SuspiciousPattern::Eval,
            SuspiciousPattern::HexEscape,
            SuspiciousPattern::Base64,
            SuspiciousPattern::FromCharCode,
            SuspiciousPattern::Unescape,
        ];
        assert(r@ =~= suspicious_order());
        r
    }
}

impl SafePattern {
    /// The bytes searched for.
    pub open spec fn pattern_bytes(self) -> Seq<u8> {
        match self {
            SafePattern::FunctionWrapper => seq![
                '!' as u8,
                'f' as u8,
                'u' as u8,
                'n' as u8,
                'c' as u8,
                't' as u8,
                'i' as u8,
                'o' as u8,
                'n' as u8,
                '(' as u8,
                'e' as u8,
                ',' as u8,
                't' as u8,
                ')' as u8,
            ],
            SafePattern::LibraryBanner => seq!['/' as u8, '*' as u8, '!' as u8, ' ' as u8],
            SafePattern::ModuleWrapper => seq![
                '(' as u8,
                'f' as u8,
                'u' as u8,
                'n' as u8,
                'c' as u8,
                't' as u8,
                'i' as u8,
                'o' as u8,
                'n' as u8,
                '(' as u8,
                'f' as u8,
                ')' as u8,
            ],
        }
    }

    /// The pattern as text.
    pub fn text(self) -> (r: &'static str)
        ensures
            r.spec_bytes() == self.pattern_bytes(),
    {
        let r: &'static str = match self {
            SafePattern::FunctionWrapper => "!function(e,t)",
            SafePattern::LibraryBanner => "/*! ",
            SafePattern::ModuleWrapper => "(function(f)",
        };
        proof {
            reveal_strlit("!function(e,t)");
            reveal_strlit("/*! ");
            reveal_strlit("(function(f)");
            vstd::string::is_ascii_spec_bytes(r);
            assert(r.spec_bytes() =~= self.pattern_bytes());
        }
        r
    }
}

} // verus!
