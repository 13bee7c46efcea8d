//! Rust identifiers in generated code.

use vstd::prelude::*;
use vstd::string::StrSliceExecFns;
use vstd::string::StringExecFns;

verus! {

/// `w` is a word that cannot be used as a plain Rust identifier: a keyword,
/// a reserved word or `_`.
pub open spec fn spec_is_rust_keyword(w: Seq<char>) -> bool {
    ||| w == seq!['_']
    ||| w == seq!['a', 's']
    ||| w == seq!['a', 's', 'y', 'n', 'c']
    ||| w == seq!['a', 'w', 'a', 'i', 't']
    ||| w == seq!['b', 'r', 'e', 'a', 'k']
    ||| w == seq!['c', 'r', 'a', 't', 'e']
    ||| w == seq!['d', 'y', 'n']
    ||| w == seq!['e', 'l', 's', 'e']
    ||| w == seq!['e', 'n', 'u', 'm']
    ||| w == seq!['e', 'x', 't', 'e', 'r', 'n']
    ||| w == seq!['f', 'a', 'l', 's', 'e']
    ||| w == seq!['f', 'n']
    ||| w == seq!['f', 'o', 'r']
    ||| w == seq!['i', 'f']
    ||| w == seq!['i', 'm', 'p', 'l']
    ||| w == seq!['i', 'n']
    ||| w == seq!['l', 'e', 't']
    ||| w == seq!['l', 'o', 'o', 'p']
    ||| w == seq!['m', 'a', 't', 'c', 'h']
    ||| w == seq!['m', 'o', 'd']
    ||| w == seq!['m', 'o', 'v', 'e']
    ||| w == seq!['m', 'u', 't']
    ||| w == seq!['p', 'u', 'b']
    ||| w == seq!['r', 'e', 'f']
    ||| w == seq!['r', 'e', 't', 'u', 'r', 'n']
    ||| w == seq!['s', 't', 'a', 't', 'i', 'c']
    ||| w == seq!['s', 'e', 'l', 'f']
    ||| w == seq!['S', 'e', 'l', 'f']
    ||| w == seq!['s', 't', 'r', 'u', 'c', 't']
    ||| w == seq!['s', 'u', 'p', 'e', 'r']
    ||| w == seq!['t', 'r', 'u', 'e']
    ||| w == seq!['t', 'r', 'a', 'i', 't']
    ||| w == seq!['t', 'y', 'p', 'e']
    ||| w == seq!['u', 'n', 's', 'a', 'f', 'e']
    ||| w == seq!['u', 's', 'e']
    ||| w == seq!['w', 'h', 'i', 'l', 'e']
    ||| w == seq!['c', 'o', 'n', 't', 'i', 'n', 'u', 'e']
    ||| w == seq!['b', 'o', 'x']
    ||| w == seq!['c', 'o', 'n', 's', 't']
    ||| w == seq!['w', 'h', 'e', 'r', 'e']
    ||| w == seq!['v', 'i', 'r', 't', 'u', 'a', 'l']
    ||| w == seq!['p', 'r', 'o', 'c']
    ||| w == seq!['a', 'l', 'i', 'g', 'n', 'o', 'f']
    ||| w == seq!['b', 'e', 'c', 'o', 'm', 'e']
    ||| w == seq!['o', 'f', 'f', 's', 'e', 't', 'o', 'f']
    ||| w == seq!['p', 'r', 'i', 'v']
    ||| w == seq!['p', 'u', 'r', 'e']
    ||| w == seq!['s', 'i', 'z', 'e', 'o', 'f']
    ||| w == seq!['t', 'y', 'p', 'e', 'o', 'f']
    ||| w == seq!['u', 'n', 's', 'i', 'z', 'e', 'd']
    ||| w == seq!['y', 'i', 'e', 'l', 'd']
    ||| w == seq!['d', 'o']
    ||| w == seq!['a', 'b', 's', 't', 'r', 'a', 'c', 't']
    ||| w == seq!['f', 'i', 'n', 'a', 'l']
    ||| w == seq!['o', 'v', 'e', 'r', 'r', 'i', 'd', 'e']
    ||| w == seq!['m', 'a', 'c', 'r', 'o']
}

/// Every strict keyword of Rust (`as`, `async`, ..., `type`, `unsafe`,
/// `use`, `where`, `while`) and every reserved one (`abstract`, `become`,
/// `box`, `do`, `final`, `macro`, `override`, `priv`, `typeof`, `unsized`,
/// `virtual`, `yield`) is a keyword here, so it is never taken for a plain
/// identifier.
pub proof fn lemma_rust_keywords()
    ensures
        spec_is_rust_keyword("as"@),
        spec_is_rust_keyword("async"@),
        spec_is_rust_keyword("await"@),
        spec_is_rust_keyword("break"@),
        spec_is_rust_keyword("const"@),
        spec_is_rust_keyword("continue"@),
        spec_is_rust_keyword("crate"@),
        spec_is_rust_keyword("dyn"@),
        spec_is_rust_keyword("else"@),
        spec_is_rust_keyword("enum"@),
        spec_is_rust_keyword(seq!['e', 'x', 't', 'e', 'r', 'n']),
        spec_is_rust_keyword("false"@),
        spec_is_rust_keyword("fn"@),
        spec_is_rust_keyword("for"@),
        spec_is_rust_keyword("if"@),
        spec_is_rust_keyword("impl"@),
        spec_is_rust_keyword("in"@),
        spec_is_rust_keyword("let"@),
        spec_is_rust_keyword("loop"@),
        spec_is_rust_keyword("match"@),
        spec_is_rust_keyword("mod"@),
        spec_is_rust_keyword("move"@),
        spec_is_rust_keyword("mut"@),
        spec_is_rust_keyword("pub"@),
        spec_is_rust_keyword("ref"@),
        spec_is_rust_keyword("return"@),
        spec_is_rust_keyword("self"@),
        spec_is_rust_keyword("Self"@),
        spec_is_rust_keyword("static"@),
        spec_is_rust_keyword("struct"@),
        spec_is_rust_keyword("super"@),
        spec_is_rust_keyword("trait"@),
        spec_is_rust_keyword("true"@),
        spec_is_rust_keyword("type"@),
        spec_is_rust_keyword("unsafe"@),
        spec_is_rust_keyword("use"@),
        spec_is_rust_keyword("where"@),
        spec_is_rust_keyword("while"@),
        spec_is_rust_keyword("abstract"@),
        spec_is_rust_keyword("become"@),
        spec_is_rust_keyword("box"@),
        spec_is_rust_keyword("do"@),
        spec_is_rust_keyword("macro"@),
        spec_is_rust_keyword("override"@),
        spec_is_rust_keyword("priv"@),
        spec_is_rust_keyword("typeof"@),
        spec_is_rust_keyword("unsized"@),
        spec_is_rust_keyword("virtual"@),
        spec_is_rust_keyword("yield"@),
        spec_is_rust_keyword(seq!['f', 'i', 'n', 'a', 'l']),
{
    reveal_strlit("as");
    assert("as"@ =~= seq!['a', 's']);
    reveal_strlit("async");
    assert("async"@ =~= seq!['a', 's', 'y', 'n', 'c']);
    reveal_strlit("await");
    assert("await"@ =~= seq!['a', 'w', 'a', 'i', 't']);
    reveal_strlit("break");
    assert("break"@ =~= seq!['b', 'r', 'e', 'a', 'k']);
    reveal_strlit("const");
    assert("const"@ =~= seq!['c', 'o', 'n', 's', 't']);
    reveal_strlit("continue");
    assert("continue"@ =~= seq!['c', 'o', 'n', 't', 'i', 'n', 'u', 'e']);
    reveal_strlit("crate");
    assert("crate"@ =~= seq!['c', 'r', 'a', 't', 'e']);
    reveal_strlit("dyn");
    assert("dyn"@ =~= seq!['d', 'y', 'n']);
    reveal_strlit("else");
    assert("else"@ =~= seq!['e', 'l', 's', 'e']);
    reveal_strlit("enum");
    assert("enum"@ =~= seq!['e', 'n', 'u', 'm']);
    reveal_strlit("false");
    assert("false"@ =~= seq!['f', 'a', 'l', 's', 'e']);
    reveal_strlit("fn");
    assert("fn"@ =~= seq!['f', 'n']);
    reveal_strlit("for");
    assert("for"@ =~= seq!['f', 'o', 'r']);
    reveal_strlit("if");
    assert("if"@ =~= seq!['i', 'f']);
    reveal_strlit("impl");
    assert("impl"@ =~= seq!['i', 'm', 'p', 'l']);
    reveal_strlit("in");
    assert("in"@ =~= seq!['i', 'n']);
    reveal_strlit("let");
    assert("let"@ =~= seq!['l', 'e', 't']);
    reveal_strlit("loop");
    assert("loop"@ =~= seq!['l', 'o', 'o', 'p']);
    reveal_strlit("match");
    assert("match"@ =~= seq!['m', 'a', 't', 'c', 'h']);
    reveal_strlit("mod");
    assert("mod"@ =~= seq!['m', 'o', 'd']);
    reveal_strlit("move");
    assert("move"@ =~= seq!['m', 'o', 'v', 'e']);
    reveal_strlit("mut");
    assert("mut"@ =~= seq!['m', 'u', 't']);
    reveal_strlit("pub");
    assert("pub"@ =~= seq!['p', 'u', 'b']);
    reveal_strlit("ref");
    assert("ref"@ =~= seq!['r', 'e', 'f']);
    reveal_strlit("return");
    assert("return"@ =~= seq!['r', 'e', 't', 'u', 'r', 'n']);
    reveal_strlit("self");
    assert("self"@ =~= seq!['s', 'e', 'l', 'f']);
    reveal_strlit("Self");
    assert("Self"@ =~= seq!['S', 'e', 'l', 'f']);
    reveal_strlit("static");
    assert("static"@ =~= seq!['s', 't', 'a', 't', 'i', 'c']);
    reveal_strlit("struct");
    assert("struct"@ =~= seq!['s', 't', 'r', 'u', 'c', 't']);
    reveal_strlit("super");
    assert("super"@ =~= seq!['s', 'u', 'p', 'e', 'r']);
    reveal_strlit("trait");
    assert("trait"@ =~= seq!['t', 'r', 'a', 'i', 't']);
    reveal_strlit("true");
    assert("true"@ =~= seq!['t', 'r', 'u', 'e']);
    reveal_strlit("type");
    assert("type"@ =~= seq!['t', 'y', 'p', 'e']);
    reveal_strlit("unsafe");
    assert("unsafe"@ =~= seq!['u', 'n', 's', 'a', 'f', 'e']);
    reveal_strlit("use");
    assert("use"@ =~= seq!['u', 's', 'e']);
    reveal_strlit("where");
    assert("where"@ =~= seq!['w', 'h', 'e', 'r', 'e']);
    reveal_strlit("while");
    assert("while"@ =~= seq!['w', 'h', 'i', 'l', 'e']);
    reveal_strlit("abstract");
    assert("abstract"@ =~= seq!['a', 'b', 's', 't', 'r', 'a', 'c', 't']);
    reveal_strlit("become");
    assert("become"@ =~= seq!['b', 'e', 'c', 'o', 'm', 'e']);
    reveal_strlit("box");
    assert("box"@ =~= seq!['b', 'o', 'x']);
    reveal_strlit("do");
    assert("do"@ =~= seq!['d', 'o']);
    reveal_strlit("macro");
    assert("macro"@ =~= seq!['m', 'a', 'c', 'r', 'o']);
    reveal_strlit("override");
    assert("override"@ =~= seq!['o', 'v', 'e', 'r', 'r', 'i', 'd', 'e']);
    reveal_strlit("priv");
    assert("priv"@ =~= seq!['p', 'r', 'i', 'v']);
    reveal_strlit("typeof");
    assert("typeof"@ =~= seq!['t', 'y', 'p', 'e', 'o', 'f']);
    reveal_strlit("unsized");
    assert("unsized"@ =~= seq!['u', 'n', 's', 'i', 'z', 'e', 'd']);
    reveal_strlit("virtual");
    assert("virtual"@ =~= seq!['v', 'i', 'r', 't', 'u', 'a', 'l']);
    reveal_strlit("yield");
    assert("yield"@ =~= seq!['y', 'i', 'e', 'l', 'd']);
}

/// Whether `s` has the characters of `chars`.
fn str_eq_chars(s: &str, chars: &[char]) -> (r: bool)
    ensures
        r == (s@ == chars@),
{
    let n = s.unicode_len();
    if n != chars.len() {
        return false;
    }
    let mut i: usize = 0;
    while i < n
        invariant
            i <= n,
            n == s@.len(),
            n == chars@.len(),
            forall|j: int| 0 <= j < i ==> s@[j] == chars@[j],
        decreases n - i,
    {
        if s.get_char(i) != chars[i] {
            return false;
        }
        i = i + 1;
    }
    assert(s@ =~= chars@);
    true
}

/// Whether `s` is a Rust keyword (or reserved word, or `_`).
pub fn is_rust_keyword(s: &str) -> (r: bool)
    ensures
        r == spec_is_rust_keyword(s@),
{
    let k0: &[char] = &['_'];
    assert(k0@ == seq!['_']);
    if str_eq_chars(s, k0) {
        return true;
    }
    let k1: &[char] = &['a', 's'];
    assert(k1@ == seq!['a', 's']);
    if str_eq_chars(s, k1) {
        return true;
    }
    let k2: &[char] = &['a', 's', 'y', 'n', 'c'];
    assert(k2@ == seq!['a', 's', 'y', 'n', 'c']);
    if str_eq_chars(s, k2) {
        return true;
    }
    let k3: &[char] = &['a', 'w', 'a', 'i', 't'];
    assert(k3@ == seq!['a', 'w', 'a', 'i', 't']);
    if str_eq_chars(s, k3) {
        return true;
    }
    let k4: &[char] = &['b', 'r', 'e', 'a', 'k'];
    assert(k4@ == seq!['b', 'r', 'e', 'a', 'k']);
    if str_eq_chars(s, k4) {
        return true;
    }
    let k5: &[char] = &['c', 'r', 'a', 't', 'e'];
    assert(k5@ == seq!['c', 'r', 'a', 't', 'e']);
    if str_eq_chars(s, k5) {
        return true;
    }
    let k6: &[char] = &['d', 'y', 'n'];
    assert(k6@ == seq!['d', 'y', 'n']);
    if str_eq_chars(s, k6) {
        return true;
    }
    let k7: &[char] = &['e', 'l', 's', 'e'];
    assert(k7@ == seq!['e', 'l', 's', 'e']);
    if str_eq_chars(s, k7) {
        return true;
    }
    let k8: &[char] = &['e', 'n', 'u', 'm'];
    assert(k8@ == seq!['e', 'n', 'u', 'm']);
    if str_eq_chars(s, k8) {
        return true;
    }
    let k9: &[char] = &['e', 'x', 't', 'e', 'r', 'n'];
    assert(k9@ == seq!['e', 'x', 't', 'e', 'r', 'n']);
    if str_eq_chars(s, k9) {
        return true;
    }
    let k10: &[char] = &['f', 'a', 'l', 's', 'e'];
    assert(k10@ == seq!['f', 'a', 'l', 's', 'e']);
    if str_eq_chars(s, k10) {
        return true;
    }
    let k11: &[char] = &['f', 'n'];
    assert(k11@ == seq!['f', 'n']);
    if str_eq_chars(s, k11) {
        return true;
    }
    let k12: &[char] = &['f', 'o', 'r'];
    assert(k12@ == seq!['f', 'o', 'r']);
    if str_eq_chars(s, k12) {
        return true;
    }
    let k13: &[char] = &['i', 'f'];
    assert(k13@ == seq!['i', 'f']);
    if str_eq_chars(s, k13) {
        return true;
    }
    let k14: &[char] = &['i', 'm', 'p', 'l'];
    assert(k14@ == seq!['i', 'm', 'p', 'l']);
    if str_eq_chars(s, k14) {
        return true;
    }
    let k15: &[char] = &['i', 'n'];
    assert(k15@ == seq!['i', 'n']);
    if str_eq_chars(s, k15) {
        return true;
    }
    let k16: &[char] = &['l', 'e', 't'];
    assert(k16@ == seq!['l', 'e', 't']);
    if str_eq_chars(s, k16) {
        return true;
    }
    let k17: &[char] = &['l', 'o', 'o', 'p'];
    assert(k17@ == seq!['l', 'o', 'o', 'p']);
    if str_eq_chars(s, k17) {
        return true;
    }
    let k18: &[char] = &['m', 'a', 't', 'c', 'h'];
    assert(k18@ == seq!['m', 'a', 't', 'c', 'h']);
    if str_eq_chars(s, k18) {
        return true;
    }
    let k19: &[char] = &['m', 'o', 'd'];
    assert(k19@ == seq!['m', 'o', 'd']);
    if str_eq_chars(s, k19) {
        return true;
    }
    let k20: &[char] = &['m', 'o', 'v', 'e'];
    assert(k20@ == seq!['m', 'o', 'v', 'e']);
    if str_eq_chars(s, k20) {
        return true;
    }
    let k21: &[char] = &['m', 'u', 't'];
    assert(k21@ == seq!['m', 'u', 't']);
    if str_eq_chars(s, k21) {
        return true;
    }
    let k22: &[char] = &['p', 'u', 'b'];
    assert(k22@ == seq!['p', 'u', 'b']);
    if str_eq_chars(s, k22) {
        return true;
    }
    let k23: &[char] = &['r', 'e', 'f'];
    assert(k23@ == seq!['r', 'e', 'f']);
    if str_eq_chars(s, k23) {
        return true;
    }
    let k24: &[char] = &['r', 'e', 't', 'u', 'r', 'n'];
    assert(k24@ == seq!['r', 'e', 't', 'u', 'r', 'n']);
    if str_eq_chars(s, k24) {
        return true;
    }
    let k25: &[char] = &['s', 't', 'a', 't', 'i', 'c'];
    assert(k25@ == seq!['s', 't', 'a', 't', 'i', 'c']);
    if str_eq_chars(s, k25) {
        return true;
    }
    let k26: &[char] = &['s', 'e', 'l', 'f'];
    assert(k26@ == seq!['s', 'e', 'l', 'f']);
    if str_eq_chars(s, k26) {
        return true;
    }
    let k27: &[char] = &['S', 'e', 'l', 'f'];
    assert(k27@ == seq!['S', 'e', 'l', 'f']);
    if str_eq_chars(s, k27) {
        return true;
    }
    let k28: &[char] = &['s', 't', 'r', 'u', 'c', 't'];
    assert(k28@ == seq!['s', 't', 'r', 'u', 'c', 't']);
    if str_eq_chars(s, k28) {
        return true;
    }
    let k29: &[char] = &['s', 'u', 'p', 'e', 'r'];
    assert(k29@ == seq!['s', 'u', 'p', 'e', 'r']);
    if str_eq_chars(s, k29) {
        return true;
    }
    let k30: &[char] = &['t', 'r', 'u', 'e'];
    assert(k30@ == seq!['t', 'r', 'u', 'e']);
    if str_eq_chars(s, k30) {
        return true;
    }
    let k31: &[char] = &['t', 'r', 'a', 'i', 't'];
    assert(k31@ == seq!['t', 'r', 'a', 'i', 't']);
    if str_eq_chars(s, k31) {
        return true;
    }
    let k32: &[char] = &['t', 'y', 'p', 'e'];
    assert(k32@ == seq!['t', 'y', 'p', 'e']);
    if str_eq_chars(s, k32) {
        return true;
    }
    let k33: &[char] = &['u', 'n', 's', 'a', 'f', 'e'];
    assert(k33@ == seq!['u', 'n', 's', 'a', 'f', 'e']);
    if str_eq_chars(s, k33) {
        return true;
    }
    let k34: &[char] = &['u', 's', 'e'];
    assert(k34@ == seq!['u', 's', 'e']);
    if str_eq_chars(s, k34) {
        return true;
    }
    let k35: &[char] = &['w', 'h', 'i', 'l', 'e'];
    assert(k35@ == seq!['w', 'h', 'i', 'l', 'e']);
    if str_eq_chars(s, k35) {
        return true;
    }
    let k36: &[char] = &['c', 'o', 'n', 't', 'i', 'n', 'u', 'e'];
    assert(k36@ == seq!['c', 'o', 'n', 't', 'i', 'n', 'u', 'e']);
    if str_eq_chars(s, k36) {
        return true;
    }
    let k37: &[char] = &['b', 'o', 'x'];
    assert(k37@ == seq!['b', 'o', 'x']);
    if str_eq_chars(s, k37) {
        return true;
    }
    let k38: &[char] = &['c', 'o', 'n', 's', 't'];
    assert(k38@ == seq!['c', 'o', 'n', 's', 't']);
    if str_eq_chars(s, k38) {
        return true;
    }
    let k39: &[char] = &['w', 'h', 'e', 'r', 'e'];
    assert(k39@ == seq!['w', 'h', 'e', 'r', 'e']);
    if str_eq_chars(s, k39) {
        return true;
    }
    let k40: &[char] = &['v', 'i', 'r', 't', 'u', 'a', 'l'];
    assert(k40@ == seq!['v', 'i', 'r', 't', 'u', 'a', 'l']);
    if str_eq_chars(s, k40) {
        return true;
    }
    let k41: &[char] = &['p', 'r', 'o', 'c'];
    assert(k41@ == seq!['p', 'r', 'o', 'c']);
    if str_eq_chars(s, k41) {
        return true;
    }
    let k42: &[char] = &['a', 'l', 'i', 'g', 'n', 'o', 'f'];
    assert(k42@ == seq!['a', 'l', 'i', 'g', 'n', 'o', 'f']);
    if str_eq_chars(s, k42) {
        return true;
    }
    let k43: &[char] = &['b', 'e', 'c', 'o', 'm', 'e'];
    assert(k43@ == seq!['b', 'e', 'c', 'o', 'm', 'e']);
    if str_eq_chars(s, k43) {
        return true;
    }
    let k44: &[char] = &['o', 'f', 'f', 's', 'e', 't', 'o', 'f'];
    assert(k44@ == seq!['o', 'f', 'f', 's', 'e', 't', 'o', 'f']);
    if str_eq_chars(s, k44) {
        return true;
    }
    let k45: &[char] = &['p', 'r', 'i', 'v'];
    assert(k45@ == seq!['p', 'r', 'i', 'v']);
    if str_eq_chars(s, k45) {
        return true;
    }
    let k46: &[char] = &['p', 'u', 'r', 'e'];
    assert(k46@ == seq!['p', 'u', 'r', 'e']);
    if str_eq_chars(s, k46) {
        return true;
    }
    let k47: &[char] = &['s', 'i', 'z', 'e', 'o', 'f'];
    assert(k47@ == seq!['s', 'i', 'z', 'e', 'o', 'f']);
    if str_eq_chars(s, k47) {
        return true;
    }
    let k48: &[char] = &['t', 'y', 'p', 'e', 'o', 'f'];
    assert(k48@ == seq!['t', 'y', 'p', 'e', 'o', 'f']);
    if str_eq_chars(s, k48) {
        return true;
    }
    let k49: &[char] = &['u', 'n', 's', 'i', 'z', 'e', 'd'];
    assert(k49@ == seq!['u', 'n', 's', 'i', 'z', 'e', 'd']);
    if str_eq_chars(s, k49) {
        return true;
    }
    let k50: &[char] = &['y', 'i', 'e', 'l', 'd'];
    assert(k50@ == seq!['y', 'i', 'e', 'l', 'd']);
    if str_eq_chars(s, k50) {
        return true;
    }
    let k51: &[char] = &['d', 'o'];
    assert(k51@ == seq!['d', 'o']);
    if str_eq_chars(s, k51) {
        return true;
    }
    let k52: &[char] = &['a', 'b', 's', 't', 'r', 'a', 'c', 't'];
    assert(k52@ == seq!['a', 'b', 's', 't', 'r', 'a', 'c', 't']);
    if str_eq_chars(s, k52) {
        return true;
    }
    let k53: &[char] = &['f', 'i', 'n', 'a', 'l'];
    assert(k53@ == seq!['f', 'i', 'n', 'a', 'l']);
    if str_eq_chars(s, k53) {
        return true;
    }
    let k54: &[char] = &['o', 'v', 'e', 'r', 'r', 'i', 'd', 'e'];
    assert(k54@ == seq!['o', 'v', 'e', 'r', 'r', 'i', 'd', 'e']);
    if str_eq_chars(s, k54) {
        return true;
    }
    let k55: &[char] = &['m', 'a', 'c', 'r', 'o'];
    assert(k55@ == seq!['m', 'a', 'c', 'r', 'o']);
    if str_eq_chars(s, k55) {
        return true;
    }
    false
}

/// `s` can be the name of a Rust item: not empty, free of `/`, `.`, `:`,
/// space and `#`, and not a keyword.
pub open spec fn is_valid_ident(s: Seq<char>) -> bool {
    &&& s.len() > 0
    &&& !s.contains('/')
    &&& !s.contains('.')
    &&& !s.contains(':')
    &&& !s.contains(' ')
    &&& !s.contains('#')
    &&& !spec_is_rust_keyword(s)
}

/// Valid Rust identifier
#[derive(Eq, PartialEq, Debug, Hash)]
pub struct RustIdent(String);

impl View for RustIdent {
    type V = Seq<char>;

    closed spec fn view(&self) -> Seq<char> {
        self.0@
    }
}

impl RustIdent {
    #[verifier::type_invariant]
    spec fn valid(self) -> bool {
        is_valid_ident(self.0@)
    }

    /// Identifier with the given text, which must be a valid identifier.
    pub fn new(s: &str) -> (r: RustIdent)
        requires
            is_valid_ident(s@),
        ensures
            r@ == s@,
    {
        RustIdent(s.to_owned())
    }

    /// The identifier text.
    pub fn get(&self) -> (r: &str)
        ensures
            r@ == self@,
            is_valid_ident(r@),
    {
        proof {
            use_type_invariant(self);
        }
        self.0.as_str()
    }

    /// The identifier text.
    pub fn into_string(self) -> (r: String)
        ensures
            r@ == self@,
            is_valid_ident(r@),
    {
        proof {
            use_type_invariant(&self);
        }
        self.0
    }

    /// Copy of the identifier.
    pub fn clone_ident(&self) -> (r: RustIdent)
        ensures
            r@ == self@,
    {
        proof {
            use_type_invariant(self);
        }
        RustIdent(self.0.clone())
    }

    /// The identifier as a path with no module prefix.
    pub fn to_path(&self) -> (r: RustIdentWithPath)
        ensures
            r.path@.len() == 0,
            r.ident@ == self@,
    {
        RustIdentWithPath { path: RustRelativePath::empty(), ident: self.clone_ident() }
    }

    /// The identifier as a one-component relative path.
    pub fn into_rel_path(self) -> (r: RustRelativePath)
        ensures
            r@ == seq![self@],
    {
        let mut v: Vec<RustIdent> = Vec::new();
        v.push(self);
        RustRelativePath::from_idents(v)
    }

    /// How the identifier is written in code: as itself, or with `r#` when
    /// it is a keyword.
    pub fn to_string(&self) -> (r: String)
        ensures
            r@ == (if spec_is_rust_keyword(self@) {
                seq!['r', '#'] + self@
            } else {
                self@
            }),
            r@ == self@,
    {
        proof {
            use_type_invariant(self);
        }
        if is_rust_keyword(self.0.as_str()) {
            let mut r = "r#".to_owned();
            r.append(self.0.as_str());
            proof {
                reveal_strlit("r#");
            }
            r
        } else {
            self.0.clone()
        }
    }
}

/// Path of Rust modules, relative to some module.
pub struct RustRelativePath {
    path: Vec<RustIdent>,
}

impl View for RustRelativePath {
    type V = Seq<Seq<char>>;

    closed spec fn view(&self) -> Seq<Seq<char>> {
        self.path@.map_values(|i: RustIdent| i@)
    }
}

impl RustRelativePath {
    /// The empty path: the module itself.
    pub fn empty() -> (r: RustRelativePath)
        ensures
            r@.len() == 0,
    {
        RustRelativePath { path: Vec::new() }
    }

    /// Path with the given components.
    pub fn from_idents(idents: Vec<RustIdent>) -> (r: RustRelativePath)
        ensures
            r@ == idents@.map_values(|i: RustIdent| i@),
    {
        RustRelativePath { path: idents }
    }

    /// Whether the path is empty.
    pub fn is_empty(&self) -> (r: bool)
        ensures
            r == (self@.len() == 0),
    {
        self.path.len() == 0
    }

    /// The components joined with `::`.
    pub fn to_string(&self) -> (r: String)
        ensures
            r@ == join_path(self@),
    {
        let mut r = String::new();
        let mut i: usize = 0;
        while i < self.path.len()
            invariant
                i <= self@.len(),
                r@ == join_path(self@.take(i as int)),
            decreases self@.len() - i,
        {
            if i > 0 {
                r.append("::");
                proof {
                    reveal_strlit("::");
                }
            }
            let part = self.path[i].to_string();
            r.append(part.as_str());
            assert(self@.take(i + 1).drop_last() =~= self@.take(i as int));
            i = i + 1;
        }
        assert(self@.take(i as int) =~= self@);
        r
    }
}

/// Components joined with `::`.
pub open spec fn join_path(p: Seq<Seq<char>>) -> Seq<char>
    decreases p.len(),
{
    if p.len() == 0 {
        Seq::empty()
    } else if p.len() == 1 {
        p[0]
    } else {
        join_path(p.drop_last()) + seq![':', ':'] + p.last()
    }
}

/// Rust identifier with a module path before it.
pub struct RustIdentWithPath {
    /// Module path.
    pub path: RustRelativePath,
    /// The identifier.
    pub ident: RustIdent,
}

impl RustIdentWithPath {
    /// How the path is written in code: `a::b::C`.
    pub fn to_string(&self) -> (r: String)
        ensures
            r@ == (if self.path@.len() == 0 {
                self.ident@
            } else {
                join_path(self.path@) + seq![':', ':'] + self.ident@
            }),
    {
        let ident = self.ident.to_string();
        if self.path.is_empty() {
            ident
        } else {
            let mut r = self.path.to_string();
            r.append("::");
            r.append(ident.as_str());
            proof {
                reveal_strlit("::");
            }
            r
        }
    }
}

} // verus!
