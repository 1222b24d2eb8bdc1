use vstd::prelude::*;

verus! {

/// The eight instructions of the tape language, one per recognized source
/// character.
#[derive(Clone, Copy, PartialEq, Eq, Structural, Debug)]
pub enum Operator {
    IncCell,
    DecCell,
    IncPtr,
    DecPtr,
    Print,
    Read,
    JumpZero,
    Loop,
}

/// The operator a source character stands for, if any; every character
/// outside the eight-character instruction alphabet is a comment.
pub open spec fn op_of_char(c: char) -> Option<Operator> {
    match c {
        '+' => Some(Operator::IncCell),
        '-' => Some(Operator::DecCell),
        '>' => Some(Operator::IncPtr),
        '<' => Some(Operator::DecPtr),
        '.' => Some(Operator::Print),
        ',' => Some(Operator::Read),
        '[' => Some(Operator::JumpZero),
        ']' => Some(Operator::Loop),
        _ => None,
    }
}

/// The instruction sequence a source text denotes: the recognized characters,
/// in order, with everything else dropped.
pub open spec fn tokens_of(s: Seq<char>) -> Seq<Operator> {
    s.filter_map(|c: char| op_of_char(c))
}

/// The subsequence of a source text made of its recognized characters, in
/// their original order.
pub open spec fn recognized(s: Seq<char>) -> Seq<char> {
    s.filter(|c: char| op_of_char(c) is Some)
}

/// The operators the recognized characters stand for, in the same order.
pub open spec fn ops_of(s: Seq<char>) -> Seq<Operator> {
    recognized(s).map_values(|c: char| op_of_char(c).unwrap())
}

/// Law: tokenizing yields at most one operator per source character, and
/// yields exactly the operators of the recognized characters in their
/// original relative order — characters outside the instruction alphabet
/// never appear, and no reordering happens.
pub proof fn lemma_tokenize_shape(s: Seq<char>)
    ensures
        tokens_of(s).len() <= s.len(),
        tokens_of(s) == ops_of(s),
    decreases s.len(),
{
    reveal(Seq::filter);
    if s.len() == 0 {
        assert(tokens_of(s) =~= Seq::<Operator>::empty());
        assert(recognized(s) =~= Seq::<char>::empty());
        assert(ops_of(s) =~= Seq::<Operator>::empty());
    } else {
        let r = s.drop_last();
        lemma_tokenize_shape(r);
        if op_of_char(s.last()) is Some {
            assert(recognized(s) == recognized(r).push(s.last()));
            assert(ops_of(s) =~= ops_of(r).push(op_of_char(s.last()).unwrap()));
            assert(tokens_of(s) =~= ops_of(s));
        } else {
            assert(recognized(s) == recognized(r));
            assert(tokens_of(s) == tokens_of(r));
        }
    }
}

/// Turns program text into the instruction sequence it denotes.
pub fn tokenize(source: String) -> (tokens: Vec<Operator>)
    ensures
        tokens@ == tokens_of(source@),
{
    let mut tokens: Vec<Operator> = Vec::new();
    let src = source.as_str();
    let n = src.unicode_len();
    let mut i: usize = 0;
    while i < n
        invariant
            i <= n,
            n == src@.len(),
            src@ == source@,
            tokens@ == tokens_of(src@.take(i as int)),
        decreases n - i,
    {
        let c = src.get_char(i);
        let op: Option<Operator> = match c {
            '+' => Some(Operator::IncCell),
            '-' => Some(Operator::DecCell),
            '>' => Some(Operator::IncPtr),
            '<' => Some(Operator::DecPtr),
            '.' => Some(Operator::Print),
            ',' => Some(Operator::Read),
            '[' => Some(Operator::JumpZero),
            ']' => Some(Operator::Loop),
            _ => None,
        };
        match op {
            Some(operator) => tokens.push(operator),
            None => {},
        }
        proof {
            let taken = src@.take(i + 1);
            assert(taken.drop_last() =~= src@.take(i as int));
            assert(taken.last() == c);
            assert(tokens@ == tokens_of(src@.take(i + 1)));
        }
        i = i + 1;
    }
    proof {
        assert(src@.take(n as int) =~= src@);
    }
    tokens
}

} // verus!
