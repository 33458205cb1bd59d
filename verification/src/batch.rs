//! Batch rendering from a template: the variable overrides of one row of
//! parameters, and where each row's video goes.
use vstd::prelude::*;
use crate::filter_graph::texts;
use crate::filters::push_u64;
use crate::split::{join_path, join_path_exec};
use crate::text::{nat_text, push_str, string_of};

verus! {

/// The `let` line that sets the variable `name` to the string `value`.
pub open spec fn override_line(name: Seq<char>, value: Seq<char>) -> Seq<char> {
    "let "@ + name + " = \""@ + value + "\"\n"@
}

/// The override lines of a row: one for each header that the row has a
/// value for, in column order.
pub open spec fn overrides(headers: Seq<Seq<char>>, record: Seq<Seq<char>>) -> Seq<char>
    decreases headers.len(),
{
    if headers.len() == 0 {
        Seq::empty()
    } else {
        let col = headers.len() - 1;
        overrides(headers.drop_last(), record) + if col < record.len() {
            override_line(headers.last(), record[col])
        } else {
            Seq::empty()
        }
    }
}

/// The source of one row: its override lines, then the template.
pub fn batch_source(headers: &Vec<String>, record: &Vec<String>, template: &str) -> (s: String)
    ensures
        s@ == overrides(texts(headers@), texts(record@)) + template@,
{
    let ghost hs = texts(headers@);
    let ghost rs = texts(record@);
    let mut s = String::new();
    let mut col: usize = 0;
    assert(hs.take(0) =~= Seq::<Seq<char>>::empty());
    while col < headers.len()
        invariant
            col <= headers@.len(),
            hs == texts(headers@),
            rs == texts(record@),
            s@ == overrides(hs.take(col as int), rs),
        decreases headers@.len() - col,
    {
        if col < record.len() {
            push_str(&mut s, "let ");
            push_str(&mut s, headers[col].as_str());
            push_str(&mut s, " = \"");
            push_str(&mut s, record[col].as_str());
            push_str(&mut s, "\"\n");
        }
        assert(hs.take(col + 1).drop_last() =~= hs.take(col as int));
        assert(s@ =~= overrides(hs.take(col + 1), rs));
        col = col + 1;
    }
    assert(hs.take(col as int) =~= hs);
    push_str(&mut s, template);
    s
}

/// Where the video of row `row_num` (counted from 1) goes.
pub fn batch_output_path(output_dir: &str, row_num: usize) -> (p: String)
    ensures
        p@ == join_path(output_dir@, "row_"@ + nat_text(row_num as nat) + ".mp4"@),
{
    let mut name = string_of("row_");
    push_u64(&mut name, row_num as u64);
    push_str(&mut name, ".mp4");
    join_path_exec(output_dir, name.as_str())
}

} // verus!
