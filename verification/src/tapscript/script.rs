//! Leaf scripts as sequences of instructions.

use vstd::prelude::*;

verus! {

/// An x-only public key: the 32 bytes that a tapscript pushes for it.
#[derive(Clone, Copy, PartialEq, Eq, Debug)]
pub struct XOnlyKey {
    pub bytes: [u8; 32],
}

/// One instruction of a leaf script.
#[derive(PartialEq, Eq, Debug)]
pub enum ScriptItem {
    /// A non-push opcode.
    Op(u8),
    /// A data push; `xonly` says whether the bytes are an x-only public key.
    Push { bytes: Vec<u8>, xonly: bool },
    /// A push that runs past the end of the script.
    Malformed,
}

/// Model of [`ScriptItem`].
pub enum Token {
    Op(u8),
    Push(Seq<u8>, bool),
    Malformed,
}

impl View for ScriptItem {
    type V = Token;

    open spec fn view(&self) -> Token {
        match self {
            ScriptItem::Op(op) => Token::Op(*op),
            ScriptItem::Push { bytes, xonly } => Token::Push(bytes@, *xonly),
            ScriptItem::Malformed => Token::Malformed,
        }
    }
}

/// A tapscript leaf, decoded into its instructions.
#[derive(PartialEq, Eq, Debug)]
pub struct LeafScript {
    pub items: Vec<ScriptItem>,
}

impl View for LeafScript {
    type V = Seq<Token>;

    open spec fn view(&self) -> Seq<Token> {
        tokens_of(self.items@)
    }
}

/// The models of instructions.
pub open spec fn tokens_of(items: Seq<ScriptItem>) -> Seq<Token> {
    items.map_values(|item: ScriptItem| item@)
}

/// The x-only keys that secp256k1 accepts: 32 bytes that are the x coordinate of a curve point.
pub uninterp spec fn xonly_key_accepted(bytes: Seq<u8>) -> bool;

/// Calls `bitcoin::secp256k1::XOnlyPublicKey::from_slice`: whether it accepts `bytes`, which it
/// decides from the bytes alone. It accepts nothing whose length is not 32.
#[verifier::external_body]
fn is_xonly_key(bytes: &[u8]) -> (ok: bool)
    ensures
        ok == xonly_key_accepted(bytes@),
        ok ==> bytes@.len() == 32,
{
    bitcoin::secp256k1::XOnlyPublicKey::from_slice(bytes).is_ok()
}

/// The push of `n` bytes whose data starts at `at`, and how far it reaches.
pub open spec fn push_at(script: Seq<u8>, at: int, n: int) -> (Token, int) {
    if at + n <= script.len() {
        let bytes = script.subrange(at, at + n);
        (Token::Push(bytes, xonly_key_accepted(bytes)), at + n)
    } else {
        (Token::Malformed, script.len() as int)
    }
}

/// The first instruction of a non-empty script, and the number of bytes that it takes.
pub open spec fn first_instruction(script: Seq<u8>) -> (Token, int) {
    let op = script[0];
    if op <= 75 {
        push_at(script, 1, op as int)
    } else if op == 76 {
        if script.len() < 2 {
            (Token::Malformed, script.len() as int)
        } else {
            push_at(script, 2, script[1] as int)
        }
    } else if op == 77 {
        if script.len() < 3 {
            (Token::Malformed, script.len() as int)
        } else {
            push_at(script, 3, script[1] + 0x100 * script[2])
        }
    } else if op == 78 {
        if script.len() < 5 {
            (Token::Malformed, script.len() as int)
        } else {
            push_at(
                script,
                5,
                script[1] + 0x100 * script[2] + 0x1_0000 * script[3] + 0x100_0000 * script[4],
            )
        }
    } else {
        (Token::Op(op), 1)
    }
}

/// The instructions of a script, in order. A push that runs past the end is the last of them.
pub open spec fn instructions(script: Seq<u8>) -> Seq<Token>
    decreases script.len(),
{
    if script.len() == 0 {
        Seq::empty()
    } else {
        let (token, used) = first_instruction(script);
        if 1 <= used <= script.len() {
            seq![token] + instructions(script.skip(used))
        } else {
            seq![token]
        }
    }
}

/// An instruction as `bitcoin` hands it out.
enum RawInstruction {
    Op(u8),
    Push(Vec<u8>),
    Malformed,
}

impl RawInstruction {
    spec fn token(self) -> Token {
        match self {
            RawInstruction::Op(op) => Token::Op(op),
            RawInstruction::Push(bytes) => Token::Push(bytes@, xonly_key_accepted(bytes@)),
            RawInstruction::Malformed => Token::Malformed,
        }
    }
}

/// Calls `bitcoin::Script::instructions` and takes one step of the iterator it returns: the first
/// instruction of `script`, and the number of bytes behind it. Pushes need not be minimal. After a
/// push that runs past the end of the script the iterator is exhausted.
#[verifier::external_body]
fn next_instruction(script: &[u8]) -> (step: Option<(RawInstruction, usize)>)
    ensures
        step is None <==> script@.len() == 0,
        step matches Some((raw, left)) ==> {
            &&& raw.token() == first_instruction(script@).0
            &&& left == script@.len() - first_instruction(script@).1
        },
{
    let mut iter = bitcoin::Script::from_bytes(script).instructions();
    let raw = match iter.next()? {
        Ok(bitcoin::script::Instruction::Op(op)) => RawInstruction::Op(op.to_u8()),
        Ok(bitcoin::script::Instruction::PushBytes(b)) => RawInstruction::Push(b.as_bytes().to_vec()),
        Err(_) => RawInstruction::Malformed,
    };
    Some((raw, iter.as_script().len()))
}

impl LeafScript {
    /// Decodes the bytes of a leaf script.
    pub fn from_bytes(script: &[u8]) -> (leaf: LeafScript)
        ensures
            leaf@ == instructions(script@),
    {
        let mut items: Vec<ScriptItem> = Vec::new();
        let mut pos: usize = 0;
        assert(script@.skip(0) =~= script@);
        loop
            invariant
                pos <= script@.len(),
                instructions(script@) =~= tokens_of(items@) + instructions(script@.skip(pos as int)),
            ensures
                pos == script@.len(),
            decreases script@.len() - pos,
        {
            let rest = vstd::slice::slice_subrange(script, pos, script.len());
            assert(rest@ =~= script@.skip(pos as int));
            match next_instruction(rest) {
                None => {
                    break;
                },
                Some((raw, left)) => {
                    let item = match raw {
                        RawInstruction::Op(op) => ScriptItem::Op(op),
                        RawInstruction::Push(bytes) => {
                            let xonly = is_xonly_key(bytes.as_slice());
                            ScriptItem::Push { bytes, xonly }
                        },
                        RawInstruction::Malformed => ScriptItem::Malformed,
                    };
                    proof {
                        let used = first_instruction(rest@).1;
                        assert(rest@.skip(used) =~= script@.skip(script@.len() - left));
                        assert(instructions(rest@) == seq![item@] + instructions(rest@.skip(used)));
                    }
                    items.push(item);
                    pos = script.len() - left;
                },
            }
        }
        LeafScript { items }
    }
}

/// The value of little-endian digits in base 256.
pub open spec fn little_endian(bytes: Seq<u8>) -> int
    decreases bytes.len(),
{
    if bytes.len() == 0 {
        0
    } else {
        bytes[0] + 0x100 * little_endian(bytes.skip(1))
    }
}

/// The number that a push holds: at most four little-endian bytes, the top bit of the last one
/// being the sign, none of them superfluous.
pub open spec fn script_int(bytes: Seq<u8>) -> Option<int> {
    let n = bytes.len() as int;
    if n == 0 {
        Some(0)
    } else if n > 4 {
        None
    } else {
        let last = bytes[n - 1];
        if last % 128 == 0 && (n == 1 || bytes[n - 2] < 128) {
            None
        } else {
            let magnitude = little_endian(bytes.update(n - 1, (last % 128) as u8));
            Some(if last < 128 { magnitude } else { -magnitude })
        }
    }
}

/// Calls `bitcoin::script::read_scriptint`: the number that a push of `bytes` holds, `None` where
/// it is longer than four bytes or not minimal.
#[verifier::external_body]
fn read_script_int(bytes: &[u8]) -> (n: Option<i64>)
    ensures
        script_int(bytes@) == match n {
            Some(v) => Some(v as int),
            None => None::<int>,
        },
{
    bitcoin::script::read_scriptint(bytes).ok()
}

/// The number that an instruction puts on the stack, where it puts one.
pub open spec fn token_number(token: Token) -> Option<int> {
    match token {
        Token::Op(op) => if 0x51 <= op <= 0x60 {
            Some(op - 0x50)
        } else if op == 0x4f {
            Some(-1int)
        } else {
            None
        },
        Token::Push(bytes, _) => script_int(bytes),
        Token::Malformed => None,
    }
}

/// The number that `item` puts on the stack: `OP_1NEGATE`, `OP_1` to `OP_16`, or a minimal push.
pub fn item_number(item: &ScriptItem) -> (n: Option<i64>)
    ensures
        token_number(item@) == match n {
            Some(v) => Some(v as int),
            None => None::<int>,
        },
{
    match item {
        ScriptItem::Op(op) => if *op >= 0x51 && *op <= 0x60 {
            Some((*op - 0x50) as i64)
        } else if *op == 0x4f {
            Some(-1)
        } else {
            None
        },
        ScriptItem::Push { bytes, .. } => read_script_int(bytes.as_slice()),
        ScriptItem::Malformed => None,
    }
}

} // verus!
