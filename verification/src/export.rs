//! The variables of an environment as a script that a shell can source.

use crate::environment::EnvMap;
use crate::ordered_map::Entry;
use crate::text::chars_of;
use vstd::prelude::*;
use vstd::string::*;

verus! {

/// Whether a character has a meaning of its own between double quotes in a
/// shell.
pub open spec fn needs_escape(c: char) -> bool {
    c == '\\' || c == '"' || c == '$'
}

/// A value as it stands between double quotes in a shell: a backslash is
/// put before every backslash, double quote and dollar sign.
pub open spec fn shell_escaped(value: Seq<char>) -> Seq<char>
    decreases value.len(),
{
    if value.len() == 0 {
        Seq::<char>::empty()
    } else if needs_escape(value.last()) {
        shell_escaped(value.drop_last()).push('\\').push(value.last())
    } else {
        shell_escaped(value.drop_last()).push(value.last())
    }
}

/// Appends `value`, escaped for a shell, to `out`.
fn push_escaped(out: &mut String, value: &str)
    ensures
        final(out)@ == old(out)@ + shell_escaped(value@),
{
    let chars = chars_of(value);
    let mut i: usize = 0;
    assert(chars@.take(0) =~= Seq::<char>::empty());
    while i < chars.len()
        invariant
            i <= chars.len(),
            chars@ == value@,
            out@ == old(out)@ + shell_escaped(chars@.take(i as int)),
        decreases chars.len() - i,
    {
        let c = chars[i];
        proof {
            assert(chars@.take(i + 1).drop_last() =~= chars@.take(i as int));
            assert(chars@.take(i + 1).last() == c);
        }
        if c == '\\' || c == '"' || c == '$' {
            out.push('\\');
        }
        out.push(c);
        i += 1;
        assert(out@ =~= old(out)@ + shell_escaped(chars@.take(i as int)));
    }
    assert(chars@.take(chars.len() as int) =~= chars@);
}

/// Escapes a value for use between double quotes in a shell.
pub fn shell_escape(value: &str) -> (r: String)
    ensures
        r@ == shell_escaped(value@),
{
    let mut r = String::new();
    push_escaped(&mut r, value);
    assert(r@ =~= shell_escaped(value@));
    r
}

/// The line that exports one variable: `export NAME="value"` with the
/// value escaped, and a line feed.
pub open spec fn export_line(name: Seq<char>, value: Seq<char>) -> Seq<char> {
    "export "@ + name + "=\""@ + shell_escaped(value) + "\"\n"@
}

/// The lines that export the variables of `entries`, in order.
pub open spec fn export_lines(entries: Seq<Entry<String>>) -> Seq<char>
    decreases entries.len(),
{
    if entries.len() == 0 {
        Seq::<char>::empty()
    } else {
        export_lines(entries.drop_last()) + export_line(
            entries.last().key@,
            entries.last().value@,
        )
    }
}

/// The script that exports every variable of `env`: one line for each, in
/// the order of the map.
pub fn export_script(env: &EnvMap) -> (r: String)
    ensures
        r@ == export_lines(env.listing()),
{
    let entries = env.entries();
    let mut r = String::new();
    let mut i: usize = 0;
    assert(entries@.take(0) =~= Seq::<Entry<String>>::empty());
    while i < entries.len()
        invariant
            i <= entries.len(),
            r@ == export_lines(entries@.take(i as int)),
        decreases entries.len() - i,
    {
        proof {
            assert(entries@.take(i + 1).drop_last() =~= entries@.take(i as int));
            assert(entries@.take(i + 1).last() == entries@[i as int]);
        }
        let ghost before = r@;
        r.append("export ");
        r.append(entries[i].key.as_str());
        r.append("=\"");
        push_escaped(&mut r, entries[i].value.as_str());
        r.append("\"\n");
        i += 1;
        assert(r@ =~= before + export_line(entries@[i - 1].key@, entries@[i - 1].value@));
    }
    assert(entries@.take(entries.len() as int) =~= entries@);
    r
}

} // verus!
