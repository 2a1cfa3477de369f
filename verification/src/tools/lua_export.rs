//! Lua table files for the addon, built as text.
use vstd::prelude::*;

use crate::tools::text::{decimal, push_char, push_decimal, push_str, string_from};

verus! {

/// A line of the file: the text and a line break.
pub open spec fn line(s: Seq<char>) -> Seq<char> {
    s + seq!['\n']
}

/// The items separated by `sep`.
pub open spec fn join(items: Seq<Seq<char>>, sep: Seq<char>) -> Seq<char>
    decreases items.len(),
{
    if items.len() == 0 {
        Seq::empty()
    } else if items.len() == 1 {
        items[0]
    } else {
        join(items.drop_last(), sep) + sep + items.last()
    }
}

/// The views of string slices.
pub open spec fn str_views(items: Seq<&str>) -> Seq<Seq<char>> {
    items.map_values(|s: &str| s@)
}

pub proof fn lemma_str_views_push(v: Seq<&str>, x: &str)
    ensures
        str_views(v.push(x)) == str_views(v).push(x@),
{
    assert(str_views(v.push(x)) =~= str_views(v).push(x@));
}

/// The line that opens the table `variable`, after an empty line.
pub open spec fn start_text(variable: Seq<char>) -> Seq<char> {
    line(Seq::empty()) + line("ADDON."@ + variable + " = {"@)
}

/// The whole text of a new file for the table `variable`.
pub open spec fn header_text(variable: Seq<char>) -> Seq<char> {
    line("local _, ADDON = ..."@) + start_text(variable)
}

/// An entry whose value is `true`, with the name as a comment.
pub open spec fn entry_line(id: u32, name: Seq<char>) -> Seq<char> {
    line("["@ + decimal(id as nat) + "] = true, -- "@ + name)
}

/// An entry with a value, with the name as a comment.
pub open spec fn value_line(id: u32, name: Seq<char>, value: Seq<char>) -> Seq<char> {
    line("["@ + decimal(id as nat) + "] = "@ + value + ", -- "@ + name)
}

/// The line that opens a named category.
pub open spec fn category_line(name: Seq<char>) -> Seq<char> {
    line("[\""@ + name + "\"] = {"@)
}

/// A keyed list of items, as it stands inside a value.
pub open spec fn sublist(key: Seq<char>, items: Seq<Seq<char>>) -> Seq<char> {
    " [\""@ + key + "\"]={"@ + join(items, seq![',']) + ",},"@
}

/// A Lua file: where it goes and the text written so far.
pub struct LuaFile {
    pub path: String,
    pub text: String,
}

pub proof fn lemma_join_take(items: Seq<Seq<char>>, sep: Seq<char>, i: int)
    requires
        0 <= i < items.len(),
    ensures
        join(items.take(i + 1), sep) == (if i == 0 {
            items[0]
        } else {
            join(items.take(i), sep) + sep + items[i]
        }),
{
    assert(items.take(i + 1).drop_last() =~= items.take(i));
}

impl LuaFile {
    /// A file at `file_path` that starts the table `variable`.
    pub fn new(file_path: String, variable: &str) -> (res: Self)
        ensures
            res.path@ == file_path@,
            res.text@ == header_text(variable@),
    {
        let mut s = Self { path: file_path, text: String::new() };
        s.write_line("local _, ADDON = ...");
        s.start(variable);
        assert(s.text@ =~= header_text(variable@));
        s
    }

    /// Writes `line` and a line break.
    pub fn write_line(&mut self, line: &str)
        ensures
            final(self).path == old(self).path,
            final(self).text@ == old(self).text@ + crate::tools::lua_export::line(line@),
    {
        push_str(&mut self.text, line);
        push_char(&mut self.text, '\n');
    }

    /// Starts the table `variable`.
    pub fn start(&mut self, variable: &str)
        ensures
            final(self).path == old(self).path,
            final(self).text@ == old(self).text@ + start_text(variable@),
    {
        let ghost before = self.text@;
        self.write_line("");
        let mut l = string_from("ADDON.");
        push_str(&mut l, variable);
        push_str(&mut l, " = {");
        self.write_line(l.as_str());
        proof {
            reveal_strlit("");
        }
        assert(self.text@ =~= before + start_text(variable@));
    }

    /// Adds the entry `[id] = true` with the name as a comment.
    pub fn add_line(&mut self, id: &u32, name: &String)
        ensures
            final(self).path == old(self).path,
            final(self).text@ == old(self).text@ + entry_line(*id, name@),
    {
        let ghost before = self.text@;
        push_str(&mut self.text, "[");
        push_decimal(&mut self.text, *id as u64);
        push_str(&mut self.text, "] = true, -- ");
        push_str(&mut self.text, name.as_str());
        push_char(&mut self.text, '\n');
        assert(self.text@ =~= before + entry_line(*id, name@));
    }

    /// Adds the entry `[id] = value` with the name as a comment.
    pub fn add_line_with_value(&mut self, id: &u32, name: &String, value: String)
        ensures
            final(self).path == old(self).path,
            final(self).text@ == old(self).text@ + value_line(*id, name@, value@),
    {
        let ghost before = self.text@;
        push_str(&mut self.text, "[");
        push_decimal(&mut self.text, *id as u64);
        push_str(&mut self.text, "] = ");
        push_str(&mut self.text, value.as_str());
        push_str(&mut self.text, ", -- ");
        push_str(&mut self.text, name.as_str());
        push_char(&mut self.text, '\n');
        assert(self.text@ =~= before + value_line(*id, name@, value@));
    }

    /// Opens the category `name`.
    pub fn start_category(&mut self, name: &String)
        ensures
            final(self).path == old(self).path,
            final(self).text@ == old(self).text@ + category_line(name@),
    {
        let ghost before = self.text@;
        push_str(&mut self.text, "[\"");
        push_str(&mut self.text, name.as_str());
        push_str(&mut self.text, "\"] = {");
        push_char(&mut self.text, '\n');
        assert(self.text@ =~= before + category_line(name@));
    }

    /// Closes the open category.
    pub fn close_category(&mut self)
        ensures
            final(self).path == old(self).path,
            final(self).text@ == old(self).text@ + line("},"@),
    {
        self.write_line("},")
    }

    /// Closes the table.
    pub fn close(&mut self)
        ensures
            final(self).path == old(self).path,
            final(self).text@ == old(self).text@ + line("}"@),
    {
        self.write_line("}")
    }

    /// The keyed list ` ["key"]={a,b,},` of `items`.
    pub fn format_sublist(&self, key: &str, items: Vec<&str>) -> (res: String)
        ensures
            res@ == sublist(key@, str_views(items@)),
    {
        let mut row = string_from(" [\"");
        push_str(&mut row, key);
        push_str(&mut row, "\"]={");
        let ghost prefix = row@;
        let ghost views = str_views(items@);
        for i in 0..items.len()
            invariant
                views == str_views(items@),
                row@ == prefix + join(views.take(i as int), seq![',']),
        {
            proof {
                lemma_join_take(views, seq![','], i as int);
            }
            if i > 0 {
                push_char(&mut row, ',');
            }
            push_str(&mut row, items[i]);
            assert(row@ =~= prefix + join(views.take(i + 1), seq![',']));
        }
        assert(views.take(views.len() as int) =~= views);
        push_str(&mut row, ",},");
        assert(row@ =~= sublist(key@, views));
        row
    }
}

} // verus!
