//! An indenting text writer: the output buffer of the generators.

use vstd::prelude::*;
use vstd::string::*;



verus! {

/// The text of one indented line: `level` indentation units, `s`, and an end
/// of line.
pub open spec fn line(unit: Seq<char>, level: nat, s: Seq<char>) -> Seq<char> {
    crate::text::repeat(unit, level) + s + "\n"@
}

/// Writes generated code, indenting each line by the current block depth.
///
/// Everything written is kept in order; nothing written is ever changed.
pub struct PrettyWriter {
    out: String,
    level: usize,
    unit: String,
}

impl PrettyWriter {
    /// The text written so far.
    pub closed spec fn text(&self) -> Seq<char> {
        self.out@
    }

    /// The current block depth.
    pub closed spec fn level(&self) -> nat {
        self.level as nat
    }

    /// The text of one level of indentation.
    pub closed spec fn unit(&self) -> Seq<char> {
        self.unit@
    }

    /// `self` is `old` with `s` written after it, at the same depth.
    pub open spec fn appended(&self, old: PrettyWriter, s: Seq<char>) -> bool {
        &&& self.text() == old.text() + s
        &&& self.level() == old.level()
        &&& self.unit() == old.unit()
    }

    /// An empty writer at depth 0 that indents with `indent_bytes`.
    pub fn new(indent_bytes: &str) -> (w: PrettyWriter)
        ensures
            w.text() == Seq::<char>::empty(),
            w.level() == 0,
            w.unit() == indent_bytes@,
    {
        PrettyWriter { out: String::new(), level: 0, unit: indent_bytes.to_owned() }
    }

    /// Enters a nested block: what follows is indented one level deeper.
    pub fn new_block(&mut self)
        requires
            old(self).level() < usize::MAX,
        ensures
            final(self).text() == old(self).text(),
            final(self).level() == old(self).level() + 1,
            final(self).unit() == old(self).unit(),
    {
        self.level = self.level + 1;
    }

    /// Leaves a nested block: what follows is indented one level less.
    pub fn end_block(&mut self)
        requires
            old(self).level() > 0,
        ensures
            final(self).text() == old(self).text(),
            final(self).level() == old(self).level() - 1,
            final(self).unit() == old(self).unit(),
    {
        self.level = self.level - 1;
    }

    /// Writes `s` as it is.
    pub fn write(&mut self, s: &str)
        ensures
            final(self).appended(*old(self), s@),
    {
        self.out.append(s);
    }

    /// Writes the indentation of the current depth.
    pub fn indent(&mut self)
        ensures
            final(self).appended(*old(self), crate::text::repeat(old(self).unit(), old(self).level())),
    {
        let mut i: usize = 0;
        while i < self.level
            invariant
                i <= self.level,
                self.level == old(self).level,
                self.unit == old(self).unit,
                self.out@ == old(self).out@ + crate::text::repeat(self.unit@, i as nat),
            decreases self.level - i,
        {
            self.out.append(self.unit.as_str());
            assert(self.out@ =~= old(self).out@ + crate::text::repeat(self.unit@, (i + 1) as nat));
            i = i + 1;
        }
    }

    /// Ends the current line.
    pub fn eol(&mut self)
        ensures
            final(self).appended(*old(self), "\n"@),
    {
        self.out.append("\n");
    }

    /// Ends a block of declarations, which leaves an empty line.
    pub fn eob(&mut self)
        ensures
            final(self).appended(*old(self), "\n"@),
    {
        self.eol();
    }

    /// Writes `s` on a line of its own at the current depth.
    pub fn write_line(&mut self, s: &str)
        ensures
            final(self).appended(*old(self), line(old(self).unit(), old(self).level(), s@)),
    {
        self.indent();
        self.write(s);
        self.eol();
        assert(self.text() =~= old(self).text() + line(old(self).unit(), old(self).level(), s@));
    }

    /// Writes `s` on a line of its own, one level deeper than the current
    /// depth, as the continuation of the line before.
    pub fn write_line_continued(&mut self, s: &str)
        ensures
            final(self).appended(
                *old(self),
                crate::text::repeat(old(self).unit(), old(self).level()) + old(self).unit() + s@ + "\n"@,
            ),
    {
        self.indent();
        self.out.append(self.unit.as_str());
        self.write(s);
        self.eol();
        assert(self.text() =~= old(self).text() + (crate::text::repeat(old(self).unit(), old(self).level())
            + old(self).unit() + s@ + "\n"@));
    }

    /// The text written so far.
    pub fn as_str(&self) -> (s: &str)
        ensures
            s@ == self.text(),
    {
        self.out.as_str()
    }

    /// The current block depth.
    pub fn depth(&self) -> (d: usize)
        ensures
            d == self.level(),
    {
        self.level
    }
}

} // verus!
