//! How programs of several files are written.
use crate::display::{aliased_text, concat3, concat5};
use crate::driver::resolutions::{FileResolutions, Resolution};
use crate::driver::{Function, Item, Program, TypeAlias};
use crate::list::List;
use crate::name::Identifier;
use crate::parse::{FunctionParam, Visibility};
use crate::text::{decimal, decimal_text, join, joined, texts};
use vstd::prelude::*;

verus! {

/// The text of a type alias.
pub open spec fn alias_text(alias: TypeAlias) -> Seq<char> {
    "type "@ + alias.name@ + " [file_id: "@ + decimal(alias.file_id as nat) + "]  = "@
        + aliased_text(alias.ty) + ";"@
}

/// The text of each parameter.
pub open spec fn param_texts(params: List<FunctionParam>) -> Seq<Seq<char>>
    decreases params,
{
    match params {
        List::Nil => Seq::empty(),
        List::Cons(head, tail) => seq![head.identifier@ + ": "@ + aliased_text(head.ty)]
            + param_texts(*tail),
    }
}

/// The text of a function, given that of its body.
pub open spec fn function_text(function: Function, body: Seq<char>) -> Seq<char> {
    let ret = match function.ret {
        Some(ty) => " -> "@ + aliased_text(ty),
        None => Seq::empty(),
    };
    "fn "@ + function.name@ + " [file_id: "@ + decimal(function.file_id as nat) + "] ("@ + joined(
        param_texts(*function.params),
        ", "@,
    ) + ")"@ + ret + " "@ + body
}

/// The text of an item, given that of the body of a function.
pub open spec fn item_text(item: Item, body: Seq<char>) -> Seq<char> {
    match item {
        Item::TypeAlias(alias) => alias_text(alias),
        Item::Function(function) => function_text(function, body),
        Item::Module => "mod witness {}"@,
    }
}

/// The text of items, one in a line, given those of the bodies of functions.
pub open spec fn items_text(items: Seq<Item>, bodies: Seq<Seq<char>>) -> Seq<char>
    decreases items.len(),
{
    if items.len() == 0 {
        Seq::empty()
    } else {
        items_text(items.drop_last(), bodies) + item_text(items.last(), bodies[items.len() - 1])
            + "\n"@
    }
}

/// The text of a visibility.
pub open spec fn visibility_text(visibility: Visibility) -> Seq<char> {
    match visibility {
        Visibility::Public => "Public"@,
        Visibility::Private => "Private"@,
    }
}

/// The text of the names that are known in a file, one in a line.
pub open spec fn entries_text(entries: List<(Identifier, Resolution)>) -> Seq<char>
    decreases entries,
{
    match entries {
        List::Nil => Seq::empty(),
        List::Cons(head, tail) => "     "@ + head.0@ + ": "@ + visibility_text(head.1.visibility)
            + "\n"@ + entries_text(*tail),
    }
}

/// The text of the names that are known in the file of the given number.
pub open spec fn file_text(id: nat, file: FileResolutions) -> Seq<char> {
    match file.entries {
        List::Nil => "   File ID "@ + decimal(id) + ": (No resolutions)\n"@,
        _ => "   File ID "@ + decimal(id) + ":\n"@ + entries_text(file.entries),
    }
}

/// The text of the names that are known in files.
pub open spec fn files_text(files: Seq<FileResolutions>) -> Seq<char>
    decreases files.len(),
{
    if files.len() == 0 {
        Seq::empty()
    } else {
        files_text(files.drop_last()) + file_text((files.len() - 1) as nat, files.last())
    }
}

/// The text of a program, given those of the bodies of functions: its items, and a table of the
/// names that are known in its files.
pub open spec fn program_text(program: Program, bodies: Seq<Seq<char>>) -> Seq<char> {
    let table = if program.resolutions@.len() == 0 {
        "             EMPTY\n"@
    } else {
        files_text(program.resolutions@)
    };
    items_text(program.items@, bodies) + "\n/* --- RESOLUTION TABLE ---\n"@ + table + "*/\n"@
}

impl TypeAlias {
    /// Write the alias.
    pub fn to_string(&self) -> (text: String)
        ensures
            text@ == alias_text(*self),
    {
        let mut text: String = concat5(
            "type ",
            self.name.as_inner(),
            " [file_id: ",
            decimal_text(self.file_id).as_str(),
            "]  = ",
        );
        text.append(self.ty.to_string().as_str());
        text.append(";");
        text
    }
}

/// Append the text of each parameter.
fn push_param_texts(params: &List<FunctionParam>, out: &mut Vec<String>)
    ensures
        texts(final(out)@) == texts(old(out)@) + param_texts(*params),
    decreases params,
{
    match params {
        List::Nil => {
            assert(texts(out@) =~= texts(out@) + Seq::<Seq<char>>::empty());
        },
        List::Cons(head, tail) => {
            let ghost start = out@;
            out.push(concat3(head.identifier.as_inner(), ": ", head.ty.to_string().as_str()));
            assert(texts(out@) =~= texts(start).push(
                head.identifier@ + ": "@ + aliased_text(head.ty),
            ));
            push_param_texts(tail, out);
            assert(texts(out@) =~= texts(start) + param_texts(*params));
        },
    }
}

impl Function {
    /// Write the function, given the text of its body.
    pub fn to_string_with_body(&self, body: &str) -> (text: String)
        ensures
            text@ == function_text(*self, body@),
    {
        let mut params: Vec<String> = Vec::new();
        push_param_texts(&self.params, &mut params);
        assert(texts(params@) =~= param_texts(*self.params));
        let mut text: String = concat5(
            "fn ",
            self.name.as_inner(),
            " [file_id: ",
            decimal_text(self.file_id).as_str(),
            "] (",
        );
        text.append(join(&params, ", ").as_str());
        text.append(")");
        let ghost head = text@;
        match &self.ret {
            Some(ty) => {
                text.append(" -> ");
                text.append(ty.to_string().as_str());
                assert(text@ =~= head + (" -> "@ + aliased_text(*ty)));
            },
            None => {
                assert(text@ =~= head + Seq::<char>::empty());
            },
        }
        text.append(" ");
        text.append(body);
        text
    }
}

impl Item {
    /// Write the item, given the text of the body of a function.
    ///
    /// The contents of modules are not known: a module is written as an empty one.
    pub fn to_string_with_body(&self, body: &str) -> (text: String)
        ensures
            text@ == item_text(*self, body@),
    {
        match self {
            Item::TypeAlias(alias) => alias.to_string(),
            Item::Function(function) => function.to_string_with_body(body),
            Item::Module => "mod witness {}".to_owned(),
        }
    }
}

/// Append the names that are known in a file.
fn append_entries(out: &mut String, entries: &List<(Identifier, Resolution)>)
    ensures
        final(out)@ == old(out)@ + entries_text(*entries),
    decreases entries,
{
    let ghost before = out@;
    match entries {
        List::Nil => {
            assert(out@ =~= out@ + Seq::<char>::empty());
        },
        List::Cons(head, tail) => {
            out.append("     ");
            out.append(head.0.as_inner());
            out.append(": ");
            match head.1.visibility {
                Visibility::Public => {
                    out.append("Public");
                },
                Visibility::Private => {
                    out.append("Private");
                },
            }
            out.append("\n");
            append_entries(out, tail);
            assert(out@ =~= before + entries_text(*entries));
        },
    }
}

impl Program {
    /// Write the program, given the text of the body of each item that is a function.
    pub fn to_string_with_bodies(&self, bodies: &Vec<String>) -> (text: String)
        requires
            bodies@.len() == self.items@.len(),
        ensures
            text@ == program_text(*self, texts(bodies@)),
    {
        let mut text: String = "".to_owned();
        proof {
            reveal_strlit("");
            assert(text@ =~= items_text(self.items@.take(0), texts(bodies@)));
        }
        let mut i: usize = 0;
        while i < self.items.len()
            invariant
                i <= self.items.len() == bodies.len(),
                text@ == items_text(self.items@.take(i as int), texts(bodies@)),
            decreases self.items.len() - i,
        {
            assert(self.items@.take(i + 1).drop_last() =~= self.items@.take(i as int));
            assert(self.items@.take(i + 1).last() == self.items@[i as int]);
            text.append(self.items[i].to_string_with_body(bodies[i].as_str()).as_str());
            text.append("\n");
            i = i + 1;
        }
        assert(self.items@.take(i as int) =~= self.items@);
        text.append("\n/* --- RESOLUTION TABLE ---\n");
        if self.resolutions.len() == 0 {
            text.append("             EMPTY\n");
        } else {
            let ghost head = text@;
            let mut id: usize = 0;
            assert(text@ =~= head + files_text(self.resolutions@.take(0)));
            while id < self.resolutions.len()
                invariant
                    id <= self.resolutions.len(),
                    text@ == head + files_text(self.resolutions@.take(id as int)),
                decreases self.resolutions.len() - id,
            {
                proof {
                    assert(self.resolutions@.take(id + 1).drop_last()
                        =~= self.resolutions@.take(id as int));
                    assert(self.resolutions@.take(id + 1).last() == self.resolutions@[id as int]);
                }
                let ghost before = text@;
                let scope = &self.resolutions[id];
                text.append("   File ID ");
                text.append(decimal_text(id).as_str());
                match &scope.entries {
                    List::Nil => {
                        text.append(": (No resolutions)\n");
                    },
                    _ => {
                        text.append(":\n");
                        append_entries(&mut text, &scope.entries);
                    },
                }
                assert(text@ =~= before + file_text(id as nat, *scope));
                assert(text@ =~= head + files_text(self.resolutions@.take(id + 1)));
                id = id + 1;
            }
            assert(self.resolutions@.take(id as int) =~= self.resolutions@);
        }
        text.append("*/\n");
        text
    }
}

} // verus!
