//! Writer of generated Rust code, line by line.

use vstd::prelude::*;
use vstd::string::StrSliceExecFns;
use vstd::string::StringExecFns;

verus! {

/// Four spaces: one level of indentation.
pub open spec fn indent_unit() -> Seq<char> {
    seq![' ', ' ', ' ', ' ']
}

/// The line `line` as written at indentation `indent`: empty lines stay
/// empty.
pub open spec fn indented(indent: Seq<char>, line: Seq<char>) -> Seq<char> {
    if line.len() == 0 {
        Seq::empty()
    } else {
        indent + line
    }
}

/// `pub const {name}: {ty} = {init};`
pub open spec fn const_line(name: Seq<char>, ty: Seq<char>, init: Seq<char>) -> Seq<char> {
    seq!['p', 'u', 'b', ' ', 'c', 'o', 'n', 's', 't', ' '] + name + seq![':', ' '] + ty + seq![
        ' ',
        '=',
        ' ',
    ] + init + seq![';']
}

/// `pub mod {name} {`
pub open spec fn mod_line(name: Seq<char>) -> Seq<char> {
    seq!['p', 'u', 'b', ' ', 'm', 'o', 'd', ' '] + name + seq![' ', '{']
}

/// Writer of generated code.
pub struct CodeWriter {
    lines: Vec<String>,
    indent: String,
}

impl CodeWriter {
    /// Lines written so far.
    pub closed spec fn lines(&self) -> Seq<Seq<char>> {
        self.lines@.map_values(|l: String| l@)
    }

    /// Current indentation.
    pub closed spec fn indent(&self) -> Seq<char> {
        self.indent@
    }

    /// A writer with nothing written, at no indentation.
    pub fn new() -> (r: CodeWriter)
        ensures
            r.lines() == Seq::<Seq<char>>::empty(),
            r.indent() == Seq::<char>::empty(),
    {
        let r = CodeWriter { lines: Vec::new(), indent: String::new() };
        assert(r.lines() =~= Seq::<Seq<char>>::empty());
        r
    }

    /// The lines written, in order.
    pub fn get_lines(&self) -> (r: &Vec<String>)
        ensures
            r@.map_values(|l: String| l@) == self.lines(),
    {
        &self.lines
    }

    /// Write one line at the current indentation.
    pub fn write_line(&mut self, line: &str)
        ensures
            final(self).lines() == old(self).lines().push(indented(old(self).indent(), line@)),
            final(self).indent() == old(self).indent(),
    {
        let l = if line.is_empty() {
            String::new()
        } else {
            let mut l = self.indent.clone();
            l.append(line);
            l
        };
        let ghost before = self.lines@;
        self.lines.push(l);
        assert(self.lines@.map_values(|l: String| l@) =~= before.map_values(|l: String| l@).push(
            l@,
        ));
    }

    /// Write `pub const NAME: TYPE = INIT;`.
    pub fn pub_const(&mut self, name: &str, field_type: &str, init: &str)
        ensures
            final(self).lines() == old(self).lines().push(
                indented(old(self).indent(), const_line(name@, field_type@, init@)),
            ),
            final(self).indent() == old(self).indent(),
    {
        let mut line = "pub const ".to_owned();
        line.append(name);
        line.append(": ");
        line.append(field_type);
        line.append(" = ");
        line.append(init);
        line.append(";");
        proof {
            reveal_strlit("pub const ");
            reveal_strlit(": ");
            reveal_strlit(" = ");
            reveal_strlit(";");
            assert(line@ =~= const_line(name@, field_type@, init@));
        }
        self.write_line(line.as_str());
    }

    /// Open `pub mod NAME {` and indent what follows.
    pub fn pub_mod_begin(&mut self, name: &str)
        ensures
            final(self).lines() == old(self).lines().push(
                indented(old(self).indent(), mod_line(name@)),
            ),
            final(self).indent() == old(self).indent() + indent_unit(),
    {
        let mut line = "pub mod ".to_owned();
        line.append(name);
        line.append(" {");
        proof {
            reveal_strlit("pub mod ");
            reveal_strlit(" {");
            assert(line@ =~= mod_line(name@));
        }
        self.write_line(line.as_str());
        self.indent.append("    ");
        proof {
            reveal_strlit("    ");
        }
    }

    /// Unindent by one level and close the block with `}`.
    pub fn block_end(&mut self)
        requires
            old(self).indent().len() >= 4,
        ensures
            final(self).indent() == old(self).indent().take(old(self).indent().len() - 4),
            final(self).lines() == old(self).lines().push(
                indented(final(self).indent(), seq!['}']),
            ),
    {
        let n = self.indent.as_str().unicode_len();
        let shorter = self.indent.as_str().substring_char(0, n - 4).to_owned();
        self.indent = shorter;
        proof {
            reveal_strlit("}");
            assert("}"@ =~= seq!['}']);
        }
        self.write_line("}");
    }
}

} // verus!
