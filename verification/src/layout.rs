//! Packing names into fixed-width columns bounded by a display width.
//!
//! Every name is padded to one fixed column width — four characters more
//! than the longest name — and the padded names are packed into rows in
//! input order. A row is closed once the next padded name would push it
//! past the target width; a single padded name wider than the target
//! still occupies a row of its own, never truncated. The final,
//! possibly partial row is always emitted. When no width is available,
//! the column width itself serves as the fallback, one name per row.

use crate::entry::LsFile;
use vstd::prelude::*;
use vstd::string::{StrSliceExecFns, StringExecFns};

verus! {

/// `n` spaces.
pub open spec fn spaces(n: nat) -> Seq<char> {
    Seq::new(n, |i: int| ' ')
}

/// The name padded with trailing spaces to `pad` characters; a name at
/// least that long stays as it is.
pub open spec fn padded(name: Seq<char>, pad: nat) -> Seq<char> {
    if name.len() >= pad {
        name
    } else {
        name + spaces((pad - name.len()) as nat)
    }
}

/// The length of the longest name, zero when there are none.
pub open spec fn max_name_len(names: Seq<Seq<char>>) -> nat
    decreases names.len(),
{
    if names.len() == 0 {
        0
    } else {
        let rest = max_name_len(names.drop_last());
        if names.last().len() > rest {
            names.last().len()
        } else {
            rest
        }
    }
}

/// The fixed column width: four more than the longest name.
pub open spec fn pad_of(names: Seq<Seq<char>>) -> nat {
    max_name_len(names) + 4
}

/// The views of a vector of strings.
pub open spec fn views_of(names: Seq<String>) -> Seq<Seq<char>> {
    names.map_values(|s: String| s@)
}

/// The names of a vector of entries.
pub open spec fn file_names(files: Seq<LsFile>) -> Seq<Seq<char>> {
    files.map_values(|f: LsFile| f.filename@)
}

/// Packs the remaining names into rows, starting from a partially built
/// row. An empty current row takes the next padded name whatever its
/// width; a non-empty one takes it only while the row stays within
/// `width`, and is closed otherwise. The last row is always emitted.
pub open spec fn pack_from(names: Seq<Seq<char>>, pad: nat, width: nat, row: Seq<char>) -> Seq<
    Seq<char>,
>
    decreases names.len(),
{
    if names.len() == 0 {
        seq![row]
    } else {
        let p = padded(names[0], pad);
        if row.len() == 0 {
            pack_from(names.drop_first(), pad, width, p)
        } else if row.len() + p.len() <= width {
            pack_from(names.drop_first(), pad, width, row + p)
        } else {
            seq![row] + pack_from(names.drop_first(), pad, width, p)
        }
    }
}

/// The rows of the column layout for the given names and target width.
pub open spec fn layout_rows(names: Seq<Seq<char>>, width: nat) -> Seq<Seq<char>> {
    pack_from(names, pad_of(names), width, Seq::empty())
}

/// All rows, concatenated in order.
pub open spec fn concat_rows(rows: Seq<Seq<char>>) -> Seq<char>
    decreases rows.len(),
{
    if rows.len() == 0 {
        Seq::empty()
    } else {
        rows[0] + concat_rows(rows.drop_first())
    }
}

/// All names, each padded, concatenated in input order.
pub open spec fn concat_padded(names: Seq<Seq<char>>, pad: nat) -> Seq<char>
    decreases names.len(),
{
    if names.len() == 0 {
        Seq::empty()
    } else {
        padded(names[0], pad) + concat_padded(names.drop_first(), pad)
    }
}

proof fn lemma_pack_from_props(names: Seq<Seq<char>>, pad: nat, width: nat, row: Seq<char>)
    ensures
        concat_rows(pack_from(names, pad, width, row)) == row + concat_padded(names, pad),
        forall|r: int|
            0 <= r < pack_from(names, pad, width, row).len() ==> ((#[trigger] pack_from(
                names,
                pad,
                width,
                row,
            )[r]).len() <= width || pack_from(names, pad, width, row)[r] == row || exists|j: int|
                0 <= j < names.len() && pack_from(names, pad, width, row)[r] == padded(
                    names[j],
                    pad,
                )),
    decreases names.len(),
{
    let rows = pack_from(names, pad, width, row);
    if names.len() == 0 {
        assert(rows == seq![row]);
        assert(seq![row].drop_first() =~= Seq::<Seq<char>>::empty());
        assert(concat_rows(rows) == row + concat_rows(Seq::<Seq<char>>::empty()));
        assert(concat_rows(rows) =~= row + concat_padded(names, pad));
    } else {
        let p = padded(names[0], pad);
        let tail = names.drop_first();
        assert(concat_padded(names, pad) == p + concat_padded(tail, pad));
        if row.len() == 0 {
            lemma_pack_from_props(tail, pad, width, p);
            assert(rows == pack_from(tail, pad, width, p));
            assert(concat_rows(rows) == p + concat_padded(tail, pad));
            assert(row + concat_padded(names, pad) =~= p + concat_padded(tail, pad));
            assert forall|r: int| 0 <= r < rows.len() implies ((#[trigger] rows[r]).len() <= width
                || rows[r] == row || exists|j: int|
                0 <= j < names.len() && rows[r] == padded(names[j], pad)) by {
                if rows[r].len() > width && rows[r] != row {
                    if rows[r] == p {
                        assert(rows[r] == padded(names[0], pad));
                    } else {
                        let j = choose|j: int| 0 <= j < tail.len() && rows[r] == padded(
                            tail[j],
                            pad,
                        );
                        assert(tail[j] == names[j + 1]);
                    }
                }
            }
        } else if row.len() + p.len() <= width {
            lemma_pack_from_props(tail, pad, width, row + p);
            assert(rows == pack_from(tail, pad, width, row + p));
            assert(concat_rows(rows) == (row + p) + concat_padded(tail, pad));
            assert((row + p) + concat_padded(tail, pad) =~= row + concat_padded(names, pad));
            assert forall|r: int| 0 <= r < rows.len() implies ((#[trigger] rows[r]).len() <= width
                || rows[r] == row || exists|j: int|
                0 <= j < names.len() && rows[r] == padded(names[j], pad)) by {
                if rows[r].len() > width && rows[r] != row {
                    if rows[r] == row + p {
                        assert(rows[r].len() <= width);
                    } else {
                        let j = choose|j: int| 0 <= j < tail.len() && rows[r] == padded(
                            tail[j],
                            pad,
                        );
                        assert(tail[j] == names[j + 1]);
                    }
                }
            }
        } else {
            lemma_pack_from_props(tail, pad, width, p);
            let rest = pack_from(tail, pad, width, p);
            assert(rows == seq![row] + rest);
            assert(rows[0] == row);
            assert(rows.drop_first() =~= rest);
            assert(concat_rows(rows) == row + concat_rows(rest));
            assert(concat_rows(rest) == p + concat_padded(tail, pad));
            assert(row + (p + concat_padded(tail, pad)) =~= row + concat_padded(names, pad));
            assert forall|r: int| 0 <= r < rows.len() implies ((#[trigger] rows[r]).len() <= width
                || rows[r] == row || exists|j: int|
                0 <= j < names.len() && rows[r] == padded(names[j], pad)) by {
                if rows[r].len() > width && rows[r] != row {
                    assert(r >= 1);
                    assert(rows[r] == rest[r - 1]);
                    if rows[r] == p {
                        assert(rows[r] == padded(names[0], pad));
                    } else {
                        let j = choose|j: int| 0 <= j < tail.len() && rest[r - 1] == padded(
                            tail[j],
                            pad,
                        );
                        assert(tail[j] == names[j + 1]);
                    }
                }
            }
        }
    }
}

/// Law: in any column layout, the rows concatenate to exactly the padded
/// names in input order — every name lands in exactly one row, in its
/// original relative position — and no row is wider than the target
/// except one holding a single over-wide padded name.
pub proof fn lemma_layout_partition(names: Seq<Seq<char>>, width: nat)
    ensures
        concat_rows(layout_rows(names, width)) == concat_padded(names, pad_of(names)),
        forall|r: int|
            0 <= r < layout_rows(names, width).len() ==> ((#[trigger] layout_rows(names, width)[r]).len()
                <= width || exists|j: int|
                0 <= j < names.len() && layout_rows(names, width)[r] == padded(
                    names[j],
                    pad_of(names),
                )),
{
    lemma_pack_from_props(names, pad_of(names), width, Seq::empty());
    assert(Seq::<char>::empty() + concat_padded(names, pad_of(names)) =~= concat_padded(
        names,
        pad_of(names),
    ));
}

/// Pads a filename with trailing spaces up to `padded_length`
/// characters; a longer filename comes back unchanged.
pub fn get_filename_display_with_padding(filename: String, padded_length: usize) -> (r: String)
    ensures
        r@ == padded(filename@, padded_length as nat),
{
    let ghost original = filename@;
    let mut result = filename;
    let mut n = result.as_str().unicode_len();
    proof {
        assert(result@ =~= original + spaces(0));
    }
    while n < padded_length
        invariant
            n == result@.len(),
            original.len() <= n,
            result@ == original + spaces((n - original.len()) as nat),
            original.len() >= padded_length ==> n == original.len(),
            original.len() < padded_length ==> n <= padded_length,
        decreases padded_length - n,
    {
        result.append(" ");
        proof {
            reveal_strlit(" ");
            assert(" "@ =~= seq![' ']);
            let ghost one_space = " "@;
            assert(original + spaces((n + 1 - original.len()) as nat) =~= (original + spaces(
                (n - original.len()) as nat,
            )) + one_space);
        }
        n = n + 1;
    }
    proof {
        if original.len() >= padded_length {
            assert(spaces(0) =~= Seq::<char>::empty());
            assert(result@ =~= original);
        } else {
            assert(n == padded_length);
        }
    }
    result
}

/// The fixed column width for these entries' names: four more than the
/// longest.
pub fn get_padding_length(files: &Vec<LsFile>) -> (pad: usize)
    requires
        max_name_len(file_names(files@)) + 4 <= usize::MAX,
    ensures
        pad as nat == pad_of(file_names(files@)),
{
    let ghost all = file_names(files@);
    let mut longest: usize = 0;
    let mut i: usize = 0;
    while i < files.len()
        invariant
            i <= files@.len(),
            all == file_names(files@),
            max_name_len(all) + 4 <= usize::MAX,
            longest as nat == max_name_len(all.take(i as int)),
        decreases files@.len() - i,
    {
        let l = files[i].filename.as_str().unicode_len();
        proof {
            assert(all.take(i + 1).drop_last() =~= all.take(i as int));
            assert(all.take(i + 1).last() == files@[i as int].filename@);
            lemma_max_name_len_take_bound(all, i + 1);
        }
        if l > longest {
            longest = l;
        }
        i += 1;
    }
    proof {
        assert(all.take(files@.len() as int) =~= all);
    }
    longest + 4
}

/// The maximum over a prefix never exceeds the maximum over the whole.
proof fn lemma_max_name_len_take_bound(names: Seq<Seq<char>>, i: int)
    requires
        0 <= i <= names.len(),
    ensures
        max_name_len(names.take(i)) <= max_name_len(names),
    decreases names.len() - i,
{
    if i < names.len() {
        lemma_max_name_len_take_bound(names, i + 1);
        assert(names.take(i + 1).drop_last() =~= names.take(i));
        assert(max_name_len(names.take(i)) <= max_name_len(names.take(i + 1)));
    } else {
        assert(names.take(i) =~= names);
    }
}

/// The length of the longest name in a vector of strings.
fn max_len_names(names: &Vec<String>) -> (m: usize)
    requires
        max_name_len(views_of(names@)) <= usize::MAX,
    ensures
        m as nat == max_name_len(views_of(names@)),
{
    let ghost all = views_of(names@);
    let mut longest: usize = 0;
    let mut i: usize = 0;
    while i < names.len()
        invariant
            i <= names@.len(),
            all == views_of(names@),
            max_name_len(all) <= usize::MAX,
            longest as nat == max_name_len(all.take(i as int)),
        decreases names@.len() - i,
    {
        let l = names[i].as_str().unicode_len();
        proof {
            assert(all.take(i + 1).drop_last() =~= all.take(i as int));
            assert(all.take(i + 1).last() == names@[i as int]@);
            lemma_max_name_len_take_bound(all, i + 1);
        }
        if l > longest {
            longest = l;
        }
        i += 1;
    }
    proof {
        assert(all.take(names@.len() as int) =~= all);
    }
    longest
}

/// Packs the names, each padded to `pad`, into rows bounded by `width`.
fn pack_names(names: &Vec<String>, pad: usize, width: usize) -> (rows: Vec<String>)
    ensures
        views_of(rows@) == pack_from(views_of(names@), pad as nat, width as nat, Seq::empty()),
{
    let ghost all = views_of(names@);
    let ghost target = pack_from(all, pad as nat, width as nat, Seq::<char>::empty());
    let mut rows: Vec<String> = Vec::new();
    let mut row = String::new();
    let mut row_chars: usize = 0;
    let mut i: usize = 0;
    proof {
        assert(all.skip(0) =~= all);
        assert(views_of(rows@) =~= Seq::<Seq<char>>::empty());
        assert(views_of(rows@) + pack_from(all.skip(0), pad as nat, width as nat, row@)
            =~= target);
    }
    while i < names.len()
        invariant
            i <= names@.len(),
            all == views_of(names@),
            target == pack_from(all, pad as nat, width as nat, Seq::<char>::empty()),
            row_chars == row@.len(),
            views_of(rows@) + pack_from(all.skip(i as int), pad as nat, width as nat, row@)
                == target,
        decreases names@.len() - i,
    {
        let p = get_filename_display_with_padding(names[i].clone(), pad);
        let p_len = p.as_str().unicode_len();
        let ghost pre_rows = rows@;
        let ghost pre_row = row@;
        proof {
            assert(all.skip(i as int)[0] == all[i as int]);
            assert(all.skip(i as int).drop_first() =~= all.skip(i + 1));
            assert(p@ == padded(all[i as int], pad as nat));
        }
        if row_chars == 0 {
            row = p;
            row_chars = p_len;
            proof {
                assert(pack_from(all.skip(i as int), pad as nat, width as nat, pre_row)
                    == pack_from(all.skip(i + 1), pad as nat, width as nat, row@));
            }
        } else if p_len <= width && row_chars <= width - p_len {
            row.append(p.as_str());
            row_chars = row_chars + p_len;
            proof {
                assert(row@ == pre_row + p@);
                assert(pack_from(all.skip(i as int), pad as nat, width as nat, pre_row)
                    == pack_from(all.skip(i + 1), pad as nat, width as nat, row@));
            }
        } else {
            rows.push(row);
            row = p;
            row_chars = p_len;
            proof {
                assert(views_of(rows@) =~= views_of(pre_rows) + seq![pre_row]);
                assert(pack_from(all.skip(i as int), pad as nat, width as nat, pre_row)
                    == seq![pre_row] + pack_from(all.skip(i + 1), pad as nat, width as nat, row@));
                assert(views_of(rows@) + pack_from(all.skip(i + 1), pad as nat, width as nat, row@)
                    =~= (views_of(pre_rows) + seq![pre_row]) + pack_from(
                    all.skip(i + 1),
                    pad as nat,
                    width as nat,
                    row@,
                ));
            }
        }
        i += 1;
    }
    let ghost pre_rows = rows@;
    let ghost pre_row = row@;
    rows.push(row);
    proof {
        assert(all.skip(names@.len() as int).len() == 0);
        assert(pack_from(all.skip(names@.len() as int), pad as nat, width as nat, pre_row)
            == seq![pre_row]);
        assert(views_of(rows@) =~= views_of(pre_rows) + seq![pre_row]);
        assert(views_of(rows@) =~= target);
    }
    rows
}

/// Lays the names out into rows bounded by `width`: the fixed column
/// width is four more than the longest name, each name occupies one row
/// slot in input order, and a row is closed once the next padded name
/// would push it past `width`.
pub fn layout(names: &Vec<String>, width: usize) -> (rows: Vec<String>)
    requires
        width >= 1,
        pad_of(views_of(names@)) <= usize::MAX,
    ensures
        views_of(rows@) == layout_rows(views_of(names@), width as nat),
{
    let pad = max_len_names(names) + 4;
    pack_names(names, pad, width)
}

/// The width the layout runs with: the one supplied, or — when none
/// could be determined — the column width itself, one name per row.
pub open spec fn effective_width(names: Seq<Seq<char>>, width: Option<usize>) -> nat {
    match width {
        Some(w) => w as nat,
        None => pad_of(names),
    }
}

/// Lays the entries' names out into display rows. The width is the
/// terminal's, when one was supplied; with none, each name sits on a row
/// of its own.
pub fn display_default(files: &Vec<LsFile>, width: Option<usize>) -> (rows: Vec<String>)
    requires
        max_name_len(file_names(files@)) + 4 <= usize::MAX,
        width matches Some(w) ==> w >= 1,
    ensures
        views_of(rows@) == layout_rows(
            file_names(files@),
            effective_width(file_names(files@), width),
        ),
{
    let pad = get_padding_length(files);
    let w = match width {
        Some(w) => w,
        None => pad,
    };
    let mut names: Vec<String> = Vec::new();
    let mut i: usize = 0;
    while i < files.len()
        invariant
            i <= files@.len(),
            names@.len() == i,
            forall|k: int| 0 <= k < i ==> (#[trigger] names@[k])@ == files@[k].filename@,
        decreases files@.len() - i,
    {
        names.push(files[i].filename.clone());
        i += 1;
    }
    proof {
        assert(views_of(names@) =~= file_names(files@));
    }
    layout(&names, w)
}

} // verus!
