//! What the server-side renderer is started with.

use crate::paths::{clean_path_string, join, path_cleaned, path_joined};
use crate::text::{chars_of, string_of, string_views};
use vstd::prelude::*;
use vstd::string::StringExecFns;

verus! {

/// One line of an import map: a module name and the file that holds it.
pub open spec fn import_line(name: Seq<char>, file: Seq<char>) -> Seq<char> {
    "        \""@ + name + "\": \"file:///"@ + file + "\",\n"@
}

/// The compiled file of a module in an output directory, cleanly spelled.
pub open spec fn module_file(output_path: Seq<char>, name: Seq<char>) -> Seq<char> {
    path_cleaned(path_joined(output_path, name + ".js"@))
}

/// The lines of an import map for `modules`, in order.
pub open spec fn module_lines(output_path: Seq<char>, modules: Seq<Seq<char>>) -> Seq<char>
    decreases modules.len(),
{
    if modules.len() == 0 {
        Seq::<char>::empty()
    } else {
        module_lines(output_path, modules.drop_last()) + import_line(
            modules.last(),
            module_file(output_path, modules.last()),
        )
    }
}

/// The import map of the renderer: the frontend's own entry under its
/// name, then each module it exposes.
pub open spec fn import_map(name: Seq<char>, output_path: Seq<char>, modules: Seq<Seq<char>>)
    -> Seq<char> {
    import_line(name, path_cleaned(path_joined(output_path, "main.js"@))) + module_lines(
        output_path,
        modules,
    )
}

/// A time stamp as it stands in a file name: with `_` for each colon,
/// space and full stop.
pub open spec fn file_stamp(stamp: Seq<char>) -> Seq<char> {
    Seq::new(
        stamp.len(),
        |i: int|
            if stamp[i] == ':' || stamp[i] == ' ' || stamp[i] == '.' {
                '_'
            } else {
                stamp[i]
            },
    )
}

/// Appends one line of an import map to `out`.
pub fn push_import_line(out: &mut String, name: &str, file: &str)
    ensures
        final(out)@ == old(out)@ + import_line(name@, file@),
{
    let ghost before = out@;
    out.append("        \"");
    out.append(name);
    out.append("\": \"file:///");
    out.append(file);
    out.append("\",\n");
    assert(out@ =~= before + import_line(name@, file@));
}

/// The import map of the renderer for the frontend `name`.
pub fn renderer_import_map(name: &str, output_path: &str, public_modules: &Vec<String>) -> (map:
    String)
    ensures
        map@ == import_map(name@, output_path@, string_views(public_modules@)),
{
    let mut map = String::new();
    let main = join(output_path, "main.js");
    let main_file = clean_path_string(main.as_str());
    push_import_line(&mut map, name, main_file.as_str());
    let ghost head = map@;
    assert(head =~= import_line(name@, path_cleaned(path_joined(output_path@, "main.js"@))));
    let mut i: usize = 0;
    proof {
        assert(string_views(public_modules@).take(0) =~= Seq::<Seq<char>>::empty());
        assert(map@ =~= head + module_lines(output_path@, string_views(public_modules@).take(0)));
    }
    while i < public_modules.len()
        invariant
            i <= public_modules.len(),
            map@ == head + module_lines(
                output_path@,
                string_views(public_modules@).take(i as int),
            ),
        decreases public_modules.len() - i,
    {
        proof {
            assert(string_views(public_modules@).take(i + 1).drop_last() =~= string_views(
                public_modules@,
            ).take(i as int));
            assert(string_views(public_modules@).take(i + 1).last() == public_modules@[i as int]@);
        }
        let ghost before = map@;
        let mut file = public_modules[i].clone();
        file.append(".js");
        let joined = join(output_path, file.as_str());
        let cleaned = clean_path_string(joined.as_str());
        push_import_line(&mut map, public_modules[i].as_str(), cleaned.as_str());
        proof {
            assert(map@ =~= head + module_lines(
                output_path@,
                string_views(public_modules@).take(i + 1),
            ));
        }
        i += 1;
    }
    proof {
        assert(string_views(public_modules@).take(public_modules.len() as int) =~= string_views(
            public_modules@,
        ));
    }
    map
}

/// The name of a log file: a prefix, the time stamp as it stands in file
/// names, and `.txt`.
pub fn log_file_name(prefix: &str, stamp: &str) -> (name: String)
    ensures
        name@ == prefix@ + file_stamp(stamp@) + ".txt"@,
{
    let chars = chars_of(stamp);
    let mut out: Vec<char> = Vec::new();
    let mut i: usize = 0;
    while i < chars.len()
        invariant
            i <= chars.len(),
            out@ == file_stamp(chars@).take(i as int),
        decreases chars.len() - i,
    {
        let c = chars[i];
        if c == ':' || c == ' ' || c == '.' {
            out.push('_');
        } else {
            out.push(c);
        }
        i += 1;
    }
    let stamped = string_of(&out);
    let mut name = prefix.to_owned();
    name.append(stamped.as_str());
    name.append(".txt");
    name
}

/// The module search path of the renderer: the builder's modules, then
/// those of the working directory.
pub fn node_path(builder_modules: &str, working_modules: &str) -> (path: String)
    ensures
        path@ == builder_modules@ + ";"@ + working_modules@,
{
    let mut path = builder_modules.to_owned();
    path.append(";");
    path.append(working_modules);
    path
}

} // verus!
