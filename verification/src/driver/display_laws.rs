//! What the text of a program of several files mentions.
use crate::display::aliased_text;
use crate::driver::display::{
    alias_text, entries_text, file_text, files_text, function_text, item_text, items_text,
    param_texts, program_text,
};
use crate::driver::resolutions::{FileResolutions, Resolution};
use crate::driver::{Function, Item, Program, TypeAlias};
use crate::list::{shared, List};
use crate::name::Identifier;
use crate::parse::{FunctionParam, Visibility};
use crate::text::laws::{
    lemma_appended, lemma_continued, lemma_joined, lemma_transitive, occurs,
};
use crate::text::{decimal, joined};
use vstd::prelude::*;

verus! {

/// What is written of several items is written of each, in their order.
proof fn lemma_items(items: Seq<Item>, bodies: Seq<Seq<char>>, i: int)
    requires
        0 <= i < items.len(),
    ensures
        occurs(items_text(items, bodies), item_text(items[i], bodies[i]) + "\n"@),
    decreases items.len(),
{
    let start = items_text(items.drop_last(), bodies);
    let line = item_text(items.last(), bodies[items.len() - 1]) + "\n"@;
    assert(items_text(items, bodies) =~= start + line);
    if i < items.len() - 1 {
        lemma_items(items.drop_last(), bodies, i);
        lemma_continued(start, line, item_text(items[i], bodies[i]) + "\n"@);
    } else {
        lemma_appended(start, line);
    }
}

/// Each item of a program is written in a line of its own.
pub proof fn items_are_written(program: Program, bodies: Seq<Seq<char>>, i: int)
    requires
        0 <= i < program.items@.len(),
    ensures
        occurs(program_text(program, bodies), item_text(program.items@[i], bodies[i]) + "\n"@),
{
    lemma_items(program.items@, bodies, i);
    lemma_all_continued();
}

/// What occurs in a text occurs in each text that continues it.
proof fn lemma_all_continued()
    ensures
        forall|a: Seq<char>, b: Seq<char>, part: Seq<char>| #[trigger]
            occurs(a, part) ==> occurs(#[trigger] (a + b), part),
        forall|a: Seq<char>, part: Seq<char>| occurs(#[trigger] (a + part), part),
{
    assert forall|a: Seq<char>, part: Seq<char>| occurs(#[trigger] (a + part), part) by {
        lemma_appended(a, part);
    }
    assert forall|a: Seq<char>, b: Seq<char>, part: Seq<char>| #[trigger]
        occurs(a, part) implies occurs(#[trigger] (a + b), part) by {
        lemma_continued(a, b, part);
    }
}

/// Items are written in their order.
pub proof fn items_are_written_in_order(
    items: Seq<Item>,
    more: Seq<Item>,
    bodies: Seq<Seq<char>>,
    more_bodies: Seq<Seq<char>>,
)
    requires
        items.len() == bodies.len(),
        more.len() == more_bodies.len(),
    ensures
        items_text(items + more, bodies + more_bodies) == items_text(items, bodies) + items_text(
            more,
            more_bodies,
        ),
    decreases more.len(),
{
    let all = items + more;
    let all_bodies = bodies + more_bodies;
    if more.len() == 0 {
        assert(all =~= items);
        assert(all_bodies =~= bodies);
        assert(items_text(items, bodies) =~= items_text(items, bodies) + Seq::<char>::empty());
    } else {
        items_are_written_in_order(items, more.drop_last(), bodies, more_bodies.drop_last());
        assert(all.drop_last() =~= items + more.drop_last());
        let fewer = bodies + more_bodies.drop_last();
        lemma_bodies(all.drop_last(), all_bodies, fewer);
        lemma_bodies(more.drop_last(), more_bodies, more_bodies.drop_last());
        assert(items_text(all, all_bodies) =~= items_text(items, bodies) + items_text(
            more,
            more_bodies,
        ));
    }
}

/// The text of items depends on their own bodies only.
proof fn lemma_bodies(items: Seq<Item>, a: Seq<Seq<char>>, b: Seq<Seq<char>>)
    requires
        forall|i: int| 0 <= i < items.len() ==> #[trigger] a[i] == b[i],
    ensures
        items_text(items, a) == items_text(items, b),
    decreases items.len(),
{
    if items.len() > 0 {
        lemma_bodies(items.drop_last(), a, b);
        assert(a[items.len() - 1] == b[items.len() - 1]);
    }
}

/// The text of an alias mentions its name, its file and its type.
pub proof fn alias_mentions_type(alias: TypeAlias)
    ensures
        occurs(alias_text(alias), alias.name@),
        occurs(alias_text(alias), decimal(alias.file_id as nat)),
        occurs(alias_text(alias), aliased_text(alias.ty)),
        item_text(Item::TypeAlias(alias), Seq::empty()) == alias_text(alias),
{
    lemma_all_continued();
}

/// The text of a function mentions its name, its file, each parameter with its type, and its type.
/// It ends with the body.
pub proof fn function_mentions_signature(function: Function, body: Seq<char>, i: int)
    ensures
        occurs(function_text(function, body), function.name@),
        occurs(function_text(function, body), decimal(function.file_id as nat)),
        0 <= i < function.params@.len() ==> occurs(
            function_text(function, body),
            function.params@[i].identifier@ + ": "@ + aliased_text(function.params@[i].ty),
        ),
        function.ret matches Some(ty) ==> occurs(function_text(function, body), aliased_text(ty)),
        body.is_suffix_of(function_text(function, body)),
        item_text(Item::Function(function), body) == function_text(function, body),
{
    lemma_all_continued();
    let params = param_texts(shared(function.params));
    lemma_params(shared(function.params));
    let start = "fn "@ + function.name@ + " [file_id: "@ + decimal(function.file_id as nat) + "] ("@;
    if 0 <= i < function.params@.len() {
        let part = function.params@[i].identifier@ + ": "@ + aliased_text(function.params@[i].ty);
        assert(params[i] == part);
        lemma_joined(params, ", "@, i);
        lemma_transitive(start + joined(params, ", "@), joined(params, ", "@), part);
    }
    if let Some(ty) = function.ret {
        let ret = " -> "@ + aliased_text(ty);
        let before = start + joined(params, ", "@) + ")"@;
        lemma_transitive(before + ret, ret, aliased_text(ty));
    }
    let text = function_text(function, body);
    assert(text.subrange(text.len() - body.len(), text.len() as int) =~= body);
}

/// There is a text for each parameter.
proof fn lemma_params(params: List<FunctionParam>)
    ensures
        param_texts(params).len() == params@.len(),
        forall|i: int|
            0 <= i < params@.len() ==> #[trigger] param_texts(params)[i] == params@[i].identifier@
                + ": "@ + aliased_text(params@[i].ty),
    decreases params,
{
    if let List::Cons(head, tail) = params {
        lemma_params(*tail);
        assert(params@ =~= seq![head] + tail@);
        assert forall|i: int| 0 <= i < params@.len() implies #[trigger] param_texts(params)[i]
            == params@[i].identifier@ + ": "@ + aliased_text(params@[i].ty) by {
            if i > 0 {
                assert(param_texts(params)[i] == param_texts(*tail)[i - 1]);
            }
        }
    }
}

/// Each name that is known in a file is written in a line with its visibility, and so is the number
/// of the file.
pub proof fn known_names_are_written(
    program: Program,
    bodies: Seq<Seq<char>>,
    id: int,
    entry: (Identifier, Resolution),
)
    requires
        0 <= id < program.resolutions@.len(),
    ensures
        occurs(program_text(program, bodies), "File ID "@ + decimal(id as nat)),
        program.resolutions@[id].entries@.contains(entry) ==> occurs(
            program_text(program, bodies),
            entry.0@ + ": "@ + (if entry.1.visibility == Visibility::Public {
                "Public"@
            } else {
                "Private"@
            }) + "\n"@,
        ),
{
    let text = program_text(program, bodies);
    let file = file_text(id as nat, program.resolutions@[id]);
    let entries = program.resolutions@[id].entries;
    lemma_file(program, bodies, id);
    let number = "File ID "@ + decimal(id as nat);
    lemma_file_number(id as nat, program.resolutions@[id]);
    lemma_transitive(text, file, number);
    if entries@.contains(entry) {
        let line = entry.0@ + ": "@ + (if entry.1.visibility == Visibility::Public {
            "Public"@
        } else {
            "Private"@
        }) + "\n"@;
        lemma_entries(entries, entry, line);
        assert(!(entries is Nil)) by {
            if entries is Nil {
                assert(entries@.len() == 0);
            }
        }
        lemma_appended("   File ID "@ + decimal(id as nat) + ":\n"@, entries_text(entries));
        lemma_transitive(file, entries_text(entries), line);
        lemma_transitive(text, file, line);
    }
}

/// Each file is written in the table.
proof fn lemma_file(program: Program, bodies: Seq<Seq<char>>, id: int)
    requires
        0 <= id < program.resolutions@.len(),
    ensures
        occurs(
            program_text(program, bodies),
            file_text(id as nat, program.resolutions@[id]),
        ),
{
    let files = program.resolutions@;
    let file = file_text(id as nat, files[id]);
    let head = items_text(program.items@, bodies) + "\n/* --- RESOLUTION TABLE ---\n"@;
    lemma_files(files, id);
    lemma_appended(head, files_text(files));
    lemma_transitive(head + files_text(files), files_text(files), file);
    lemma_continued(head + files_text(files), "*/\n"@, file);
}

/// The number of a file is written.
proof fn lemma_file_number(id: nat, file: FileResolutions)
    ensures
        occurs(file_text(id, file), "File ID "@ + decimal(id)),
{
    let number = "File ID "@ + decimal(id);
    assert("   File ID "@ =~= "   "@ + "File ID "@) by {
        reveal_strlit("   File ID ");
        reveal_strlit("   ");
        reveal_strlit("File ID ");
    }
    let start = "   File ID "@ + decimal(id);
    assert(start =~= "   "@ + number);
    lemma_appended("   "@, number);
    match file.entries {
        List::Nil => {
            lemma_continued(start, ": (No resolutions)\n"@, number);
        },
        _ => {
            lemma_continued(start, ":\n"@, number);
            lemma_continued(start + ":\n"@, entries_text(file.entries), number);
        },
    }
}

/// Each file is written.
proof fn lemma_files(files: Seq<FileResolutions>, id: int)
    requires
        0 <= id < files.len(),
    ensures
        occurs(files_text(files), file_text(id as nat, files[id])),
    decreases files.len(),
{
    lemma_all_continued();
    if id < files.len() - 1 {
        lemma_files(files.drop_last(), id);
    }
}

/// Each name is written.
proof fn lemma_entries(
    entries: List<(Identifier, Resolution)>,
    entry: (Identifier, Resolution),
    line: Seq<char>,
)
    requires
        entries@.contains(entry),
        line == entry.0@ + ": "@ + (if entry.1.visibility == Visibility::Public {
            "Public"@
        } else {
            "Private"@
        }) + "\n"@,
    ensures
        occurs(entries_text(entries), line),
    decreases entries,
{
    lemma_all_continued();
    if let List::Cons(head, tail) = entries {
        assert(entries@ =~= seq![head] + tail@);
        if head == entry {
            assert(entries_text(entries) =~= "     "@ + line + entries_text(*tail));
        } else {
            let i = choose|i: int| 0 <= i < entries@.len() && entries@[i] == entry;
            assert(tail@[i - 1] == entry);
            lemma_entries(*tail, entry, line);
            lemma_transitive(entries_text(entries), entries_text(*tail), line);
        }
    }
}

} // verus!
