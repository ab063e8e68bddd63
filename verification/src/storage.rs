//! Where the database schema is looked for.

use vstd::prelude::*;

use crate::text::{ancestor_dirs, ancestors, join_path, path_join};

verus! {

/// The places the schema file is looked for, in order: the working directory,
/// the directory of the executable, then the working directory and up to seven
/// of its ancestors (none of those when the working directory is unknown).
pub open spec fn spec_schema_candidates(exe_dir: Option<Seq<char>>, current_dir: Option<Seq<char>>) -> Seq<Seq<char>> {
    let first = seq![
        "schema.surrealql"@,
        path_join(
            match exe_dir {
                Some(d) => d,
                None => Seq::empty(),
            },
            "schema.surrealql"@,
        ),
    ];
    match current_dir {
        Some(c) => first + ancestors(c, 8).map_values(|d: Seq<char>| path_join(d, "schema.surrealql"@)),
        None => first,
    }
}

/// The places the schema file is looked for, in order.
pub fn schema_candidates(exe_dir: Option<&str>, current_dir: Option<&str>) -> (c: Vec<String>)
    ensures
        c@.map_values(|s: String| s@) == spec_schema_candidates(
            match exe_dir { Some(d) => Some(d@), None => None },
            match current_dir { Some(d) => Some(d@), None => None },
        ),
{
    let ghost exe_v = match exe_dir { Some(d) => Some(d@), None => None::<Seq<char>> };
    let ghost cur_v = match current_dir { Some(d) => Some(d@), None => None::<Seq<char>> };
    proof {
        reveal_strlit("");
    }
    let mut c: Vec<String> = Vec::new();
    c.push(String::from_str("schema.surrealql"));
    let base = match exe_dir {
        Some(d) => d,
        None => "",
    };
    c.push(join_path(base, "schema.surrealql"));
    assert(""@ =~= Seq::<char>::empty());
    let ghost first = seq![
        "schema.surrealql"@,
        path_join(match exe_v { Some(d) => d, None => Seq::empty() }, "schema.surrealql"@),
    ];
    assert(c@.map_values(|s: String| s@) =~= first);
    match current_dir {
        None => c,
        Some(cd) => {
            let dirs = ancestor_dirs(cd, 8);
            let ghost dv = ancestors(cd@, 8);
            let n: usize = dirs.len();
            let mut i: usize = 0;
            assert(dirs@.len() == dv.len()) by {
                assert(dirs@.map_values(|d: String| d@).len() == dirs@.len());
            }
            while i < n
                invariant
                    n == dirs@.len(),
                    dv.len() == n,
                    dirs@.map_values(|d: String| d@) == dv,
                    i <= n,
                    c@.map_values(|s: String| s@) == first + dv.subrange(0, i as int).map_values(
                        |d: Seq<char>| path_join(d, "schema.surrealql"@),
                    ),
                decreases n - i,
            {
                let ghost before = c@.map_values(|s: String| s@);
                let p = join_path(dirs[i].as_str(), "schema.surrealql");
                assert(dirs@[i as int]@ == dv[i as int]) by {
                    assert(dirs@.map_values(|d: String| d@)[i as int] == dirs@[i as int]@);
                }
                c.push(p);
                assert(c@.map_values(|s: String| s@) =~= before.push(path_join(dv[i as int], "schema.surrealql"@)));
                assert(dv.subrange(0, i + 1).map_values(|d: Seq<char>| path_join(d, "schema.surrealql"@)) =~= dv.subrange(
                    0,
                    i as int,
                ).map_values(|d: Seq<char>| path_join(d, "schema.surrealql"@)).push(path_join(dv[i as int], "schema.surrealql"@)));
                i = i + 1;
            }
            assert(dv.subrange(0, n as int) =~= dv);
            c
        },
    }
}

} // verus!
