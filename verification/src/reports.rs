//! The computation halves of the host-run diagnostic tools: parsing the raw
//! text that host commands print, and assembling the structured reports.
//! The host only runs the commands; everything from raw text to report is
//! verified here.

use vstd::prelude::*;
use vstd::string::StringExecFns;
use crate::mac_troubleshoot::forbidden_process;
use crate::mac_troubleshoot::forbidden_process_spec;
use crate::schema::ArgVal;
use crate::schema::ArgValue;
use crate::schema::arg_model;
use crate::schema::val_get;
use crate::schema::DataPair;
use crate::schema::DataVal;
use crate::schema::DataValue;
use crate::schema::ResultModel;
use crate::schema::ToolResult;
use crate::schema::data_model;
use crate::schema::result_model;
use crate::text::chars_vec;
use crate::text::contains_lit;
use crate::text::has_substring;
use crate::text::dec_digit;
use crate::text::digits_val;
use crate::text::is_u64_str;
use crate::text::lines_of;
use crate::text::lower;
use crate::text::lower_of;
use crate::text::parse_u64;
use crate::text::space_split;
use crate::text::split_lines;
use crate::text::split_runs;
use crate::text::string_of_chars;
use crate::text::trim_spec;
use crate::text::trim_str;
use crate::text::u64_digits;
use crate::text::views_of;

verus! {

/// A successful report carrying the given payload.
pub open spec fn report_ok(data: DataVal) -> ResultModel {
    ResultModel { success: true, data, error: None }
}

/// The position of the first colon in a line, if any.
pub open spec fn colon_index(l: Seq<char>) -> Option<int>
    decreases l.len(),
{
    if l.len() == 0 {
        None
    } else if l[0] == ':' {
        Some(0)
    } else {
        match colon_index(l.drop_first()) {
            Some(i) => Some(i + 1),
            None => None,
        }
    }
}

proof fn lemma_colon_index_at(l: Seq<char>, i: int)
    requires
        0 <= i < l.len(),
        l[i] == ':',
        forall|j: int| 0 <= j < i ==> l[j] != ':',
    ensures
        colon_index(l) == Some(i),
    decreases i,
{
    if i > 0 {
        assert(forall|j: int| 0 <= j < i - 1 ==> l.drop_first()[j] != ':');
        lemma_colon_index_at(l.drop_first(), i - 1);
    }
}

proof fn lemma_colon_index_none(l: Seq<char>)
    requires
        forall|j: int| 0 <= j < l.len() ==> l[j] != ':',
    ensures
        colon_index(l) is None,
    decreases l.len(),
{
    if l.len() > 0 {
        assert(forall|j: int| 0 <= j < l.drop_first().len() ==> l.drop_first()[j] != ':');
        lemma_colon_index_none(l.drop_first());
    }
}

/// Split a line at its first colon, if it has one.
fn split_at_colon(line: &String) -> (r: Option<(String, String)>)
    ensures
        match r {
            Some(kv) => colon_index(line@) matches Some(i) && kv.0@ == line@.take(i) && kv.1@
                == line@.skip(i + 1),
            None => colon_index(line@) is None,
        },
{
    let cs = chars_vec(line.as_str());
    let mut i: usize = 0;
    while i < cs.len()
        invariant
            i <= cs@.len(),
            cs@ == line@,
            forall|j: int| 0 <= j < i ==> line@[j] != ':',
        decreases cs@.len() - i,
    {
        if cs[i] == ':' {
            proof {
                lemma_colon_index_at(line@, i as int);
            }
            let mut key: Vec<char> = Vec::new();
            let mut k: usize = 0;
            while k < i
                invariant
                    k <= i <= cs@.len(),
                    cs@ == line@,
                    key@ =~= line@.take(k as int),
                decreases i - k,
            {
                proof {
                    assert(line@.take(k as int + 1) =~= line@.take(k as int).push(
                        line@[k as int],
                    ));
                }
                key.push(cs[k]);
                k = k + 1;
            }
            let mut value: Vec<char> = Vec::new();
            let mut v: usize = i + 1;
            while v < cs.len()
                invariant
                    i < v <= cs@.len(),
                    cs@ == line@,
                    value@ =~= line@.skip(i as int + 1).take(v - i - 1),
                decreases cs@.len() - v,
            {
                proof {
                    assert(line@.skip(i as int + 1).take(v - i) =~= line@.skip(i as int + 1).take(
                        v - i - 1,
                    ).push(line@[v as int]));
                }
                value.push(cs[v]);
                v = v + 1;
            }
            proof {
                assert(value@ =~= line@.skip(i as int + 1));
            }
            return Some((string_of_chars(&key), string_of_chars(&value)));
        }
        i = i + 1;
    }
    proof {
        lemma_colon_index_none(line@);
    }
    None
}

/// Spaces replaced by underscores.
pub open spec fn underscored(s: Seq<char>) -> Seq<char> {
    s.map_values(
        |c: char|
            if c == ' ' {
                '_'
            } else {
                c
            },
    )
}

/// Replace spaces by underscores.
fn replace_spaces(s: &String) -> (r: String)
    ensures
        r@ == underscored(s@),
{
    let cs = chars_vec(s.as_str());
    let mut out: Vec<char> = Vec::new();
    let mut i: usize = 0;
    while i < cs.len()
        invariant
            i <= cs@.len(),
            cs@ == s@,
            out@.len() == i,
            forall|j: int| 0 <= j < i ==> out@[j] == underscored(s@)[j],
        decreases cs@.len() - i,
    {
        let c = cs[i];
        if c == ' ' {
            out.push('_');
        } else {
            out.push(c);
        }
        i = i + 1;
    }
    proof {
        assert(out@ =~= underscored(s@));
    }
    string_of_chars(&out)
}

/// Trailing full stops dropped.
pub open spec fn strip_dots(s: Seq<char>) -> Seq<char>
    decreases s.len(),
{
    if s.len() > 0 && s.last() == '.' {
        strip_dots(s.drop_last())
    } else {
        s
    }
}

fn strip_trailing_dots(s: &String) -> (r: String)
    ensures
        r@ == strip_dots(s@),
{
    let cs = chars_vec(s.as_str());
    let mut end: usize = cs.len();
    proof {
        assert(s@.take(end as int) =~= s@);
    }
    while end > 0 && cs[end - 1] == '.'
        invariant
            end <= cs@.len(),
            cs@ == s@,
            strip_dots(s@) == strip_dots(s@.take(end as int)),
        decreases end,
    {
        proof {
            assert(s@.take(end as int).last() == s@[end - 1]);
            assert(s@.take(end as int).drop_last() =~= s@.take(end as int - 1));
        }
        end = end - 1;
    }
    proof {
        assert(strip_dots(s@.take(end as int)) == s@.take(end as int));
    }
    let mut out: Vec<char> = Vec::new();
    let mut i: usize = 0;
    while i < end
        invariant
            end <= cs@.len(),
            cs@ == s@,
            i <= end,
            out@ =~= s@.take(i as int),
        decreases end - i,
    {
        proof {
            assert(s@.take(i as int + 1) =~= s@.take(i as int).push(s@[i as int]));
        }
        out.push(cs[i]);
        i = i + 1;
    }
    string_of_chars(&out)
}

/// The words of one raw line.
pub open spec fn line_words(l: Seq<char>) -> Seq<Seq<char>> {
    space_split(l)
}

/// Split a line into its whitespace-separated words.
fn words_of_line(line: &String) -> (r: Vec<String>)
    ensures
        views_of(r@) == line_words(line@),
{
    let cs = chars_vec(line.as_str());
    split_runs(&cs, false)
}

/// One key/value entry of the memory statistics table: the key is the
/// lower-cased, underscore-joined label, the value a count when the text
/// parses as one, otherwise the cleaned text itself.
pub open spec fn vm_stat_entry(l: Seq<char>) -> Option<(Seq<char>, DataVal)> {
    match colon_index(l) {
        None => None,
        Some(i) => {
            let key = lower_of(underscored(trim_spec(l.take(i))));
            let vs = trim_spec(strip_dots(trim_spec(l.skip(i + 1))));
            let value = if is_u64_str(vs) && digits_val(u64_digits(vs))
                <= 0x7fff_ffff_ffff_ffff {
                DataVal::Int(digits_val(u64_digits(vs)))
            } else {
                DataVal::Text(vs)
            };
            Some((key, value))
        },
    }
}

/// The entries of the memory statistics table, in line order.
pub open spec fn vm_stat_entries(ls: Seq<Seq<char>>) -> Seq<(Seq<char>, DataVal)>
    decreases ls.len(),
{
    if ls.len() == 0 {
        Seq::empty()
    } else {
        (match vm_stat_entry(ls[0]) {
            Some(e) => seq![e],
            None => Seq::empty(),
        }) + vm_stat_entries(ls.drop_first())
    }
}

/// The memory statistics table parsed from the raw command output.
pub open spec fn vm_stat_data(raw: Seq<char>) -> DataVal {
    DataVal::Obj(vm_stat_entries(lines_of(raw)))
}

/// Parse the memory statistics table printed by the host.
pub fn parse_vm_stat(raw: &str) -> (r: DataValue)
    ensures
        data_model(r) == vm_stat_data(raw@),
{
    let lines = split_lines(raw);
    let ghost ls = lines_of(raw@);
    let mut pairs: Vec<DataPair> = Vec::new();
    let mut i: usize = 0;
    proof {
        assert(ls.skip(0) =~= ls);
        assert(Seq::<(Seq<char>, DataVal)>::empty() + vm_stat_entries(ls) =~= vm_stat_entries(
            ls,
        ));
        assert(pairs@.len() == 0);
    }
    while i < lines.len()
        invariant
            i <= lines@.len(),
            views_of(lines@) == ls,
            ls == lines_of(raw@),
            vm_stat_entries(ls) =~= entries_of(pairs@) + vm_stat_entries(ls.skip(i as int)),
        decreases lines@.len() - i,
    {
        proof {
            assert(ls.skip(i as int).len() > 0);
            assert(ls.skip(i as int)[0] == ls[i as int]);
            assert(ls.skip(i as int).drop_first() =~= ls.skip(i as int + 1));
            assert(lines@[i as int]@ == ls[i as int]);
        }
        let ghost before = entries_of(pairs@);
        match split_at_colon(&lines[i]) {
            Some((key_raw, val_raw)) => {
                let key = lower(replace_spaces(&trim_str(key_raw.as_str())).as_str());
                let vs = trim_str(strip_trailing_dots(&trim_str(val_raw.as_str())).as_str());
                let value = match parse_u64(vs.as_str()) {
                    Some(n) => {
                        if n <= 0x7fff_ffff_ffff_ffff {
                            DataValue::Int(n as i64)
                        } else {
                            DataValue::Text(vs)
                        }
                    },
                    None => DataValue::Text(vs),
                };
                proof {
                    assert(vm_stat_entry(ls[i as int]) matches Some(e) && e.0 == key@ && e.1
                        == data_model(value));
                }
                pairs.push(DataPair { key, value });
                proof {
                    assert(entries_of(pairs@) =~= before.push(
                        vm_stat_entry(ls[i as int])->Some_0,
                    ));
                    assert(before + (seq![vm_stat_entry(ls[i as int])->Some_0]
                        + vm_stat_entries(ls.skip(i as int + 1))) =~= entries_of(pairs@)
                        + vm_stat_entries(ls.skip(i as int + 1)));
                }
            },
            None => {
                proof {
                    assert(Seq::<(Seq<char>, DataVal)>::empty() + vm_stat_entries(
                        ls.skip(i as int + 1),
                    ) =~= vm_stat_entries(ls.skip(i as int + 1)));
                }
            },
        }
        i = i + 1;
    }
    proof {
        assert(ls.skip(i as int) =~= Seq::<Seq<char>>::empty());
        assert(entries_of(pairs@) + Seq::<(Seq<char>, DataVal)>::empty() =~= entries_of(
            pairs@,
        ));
    }
    let r = DataValue::Obj(pairs);
    proof {
        assert(data_model(r)->Obj_0 =~~= vm_stat_entries(ls));
        assert(data_model(r) =~~= vm_stat_data(raw@));
    }
    r
}

/// The modelled entries of a payload-object under construction.
pub open spec fn entries_of(pairs: Seq<DataPair>) -> Seq<(Seq<char>, DataVal)> {
    pairs.map_values(|p: DataPair| (p.key@, data_model(p.value)))
}

/// The modelled items of a payload-list under construction.
pub open spec fn items_of(items: Seq<DataValue>) -> Seq<DataVal> {
    items.map_values(|v: DataValue| data_model(v))
}

/// All lines after the header line, if any.
pub open spec fn tail_of(ls: Seq<Seq<char>>) -> Seq<Seq<char>> {
    if ls.len() == 0 {
        ls
    } else {
        ls.drop_first()
    }
}

/// Words joined back together with single spaces.
pub open spec fn join_rest(ws: Seq<Seq<char>>) -> Seq<char>
    decreases ws.len(),
{
    if ws.len() == 0 {
        Seq::empty()
    } else {
        seq![' '] + ws[0] + join_rest(ws.drop_first())
    }
}

/// Words joined with single spaces.
pub open spec fn join_spaces(ws: Seq<Seq<char>>) -> Seq<char> {
    if ws.len() == 0 {
        Seq::empty()
    } else {
        ws[0] + join_rest(ws.drop_first())
    }
}

/// Join words with single spaces.
fn join_words(ws: &Vec<String>, from: usize) -> (r: String)
    requires
        from <= ws@.len(),
    ensures
        r@ == join_spaces(views_of(ws@).skip(from as int)),
{
    let ghost vs = views_of(ws@).skip(from as int);
    if from == ws.len() {
        proof {
            assert(vs =~= Seq::<Seq<char>>::empty());
        }
        return String::new();
    }
    let mut acc = ws[from].clone();
    let mut i: usize = from + 1;
    proof {
        assert(vs[0] == ws@[from as int]@);
        assert(vs.drop_first() =~= views_of(ws@).skip(from as int + 1));
    }
    while i < ws.len()
        invariant
            from < i <= ws@.len(),
            vs == views_of(ws@).skip(from as int),
            join_spaces(vs) == acc@ + join_rest(views_of(ws@).skip(i as int)),
        decreases ws@.len() - i,
    {
        let ghost rest = views_of(ws@).skip(i as int);
        proof {
            assert(rest.len() > 0);
            assert(rest[0] == ws@[i as int]@);
            assert(rest.drop_first() =~= views_of(ws@).skip(i as int + 1));
        }
        push_space(&mut acc);
        acc.append(ws[i].as_str());
        i = i + 1;
    }
    proof {
        assert(views_of(ws@).skip(i as int) =~= Seq::<Seq<char>>::empty());
        assert(acc@ + Seq::<char>::empty() =~= acc@);
    }
    acc
}

/// Append one space.
fn push_space(s: &mut String)
    ensures
        final(s)@ == old(s)@ + seq![' '],
{
    s.append(" ");
    proof {
        reveal_strlit(" ");
        assert(" "@ =~= seq![' ']);
    }
}

/// One row of a processor listing: lines with at least three words carry
/// the identifier, the command and the processor share.
pub open spec fn process_row(l: Seq<char>) -> Option<DataVal> {
    let w = line_words(l);
    if w.len() >= 3 {
        Some(
            DataVal::Obj(
                seq![
                    ("pid"@, DataVal::Text(w[0])),
                    ("command"@, DataVal::Text(w[1])),
                    ("cpu_pct"@, DataVal::Text(w[2])),
                ],
            ),
        )
    } else {
        None
    }
}

pub open spec fn process_rows(ls: Seq<Seq<char>>) -> Seq<DataVal>
    decreases ls.len(),
{
    if ls.len() == 0 {
        Seq::empty()
    } else {
        (match process_row(ls[0]) {
            Some(v) => seq![v],
            None => Seq::empty(),
        }) + process_rows(ls.drop_first())
    }
}

/// The process listing parsed from the raw output: every line after the
/// header with at least three columns.
pub open spec fn process_list_data(raw: Seq<char>) -> DataVal {
    DataVal::List(process_rows(tail_of(lines_of(raw))))
}

/// Parse a header-led process listing.
pub fn parse_process_list(raw: &str) -> (r: DataValue)
    ensures
        data_model(r) == process_list_data(raw@),
{
    let lines = split_lines(raw);
    let ghost ls = tail_of(lines_of(raw@));
    let mut items: Vec<DataValue> = Vec::new();
    let mut i: usize = if lines.len() == 0 {
        0
    } else {
        1
    };
    proof {
        assert(ls =~= views_of(lines@).skip(i as int));
        assert(Seq::<DataVal>::empty() + process_rows(ls) =~= process_rows(ls));
    }
    while i < lines.len()
        invariant
            i <= lines@.len(),
            views_of(lines@) == lines_of(raw@),
            ls == tail_of(lines_of(raw@)),
            views_of(lines@).skip(i as int).len() <= ls.len(),
            process_rows(ls) =~= items_of(items@) + process_rows(views_of(lines@).skip(i as int)),
        decreases lines@.len() - i,
    {
        let ghost rest = views_of(lines@).skip(i as int);
        proof {
            assert(rest.len() > 0);
            assert(rest[0] == lines@[i as int]@);
            assert(rest.drop_first() =~= views_of(lines@).skip(i as int + 1));
        }
        let ghost before = items_of(items@);
        let w = words_of_line(&lines[i]);
        if w.len() >= 3 {
            let mut ps: Vec<DataPair> = Vec::new();
            ps.push(DataPair { key: "pid".to_owned(), value: DataValue::Text(w[0].clone()) });
            ps.push(DataPair { key: "command".to_owned(), value: DataValue::Text(w[1].clone()) });
            ps.push(DataPair { key: "cpu_pct".to_owned(), value: DataValue::Text(w[2].clone()) });
            let row = DataValue::Obj(ps);
            proof {
                reveal_with_fuel(data_model, 3);
                assert(data_model(row)->Obj_0 =~~= process_row(rest[0])->Some_0->Obj_0);
                assert(data_model(row) =~~= process_row(rest[0])->Some_0);
            }
            items.push(row);
            proof {
                assert(items_of(items@) =~= before.push(process_row(rest[0])->Some_0));
                assert(before + (seq![process_row(rest[0])->Some_0] + process_rows(
                    rest.drop_first(),
                )) =~= items_of(items@) + process_rows(rest.drop_first()));
            }
        } else {
            proof {
                assert(Seq::<DataVal>::empty() + process_rows(rest.drop_first())
                    =~= process_rows(rest.drop_first()));
            }
        }
        i = i + 1;
    }
    proof {
        assert(views_of(lines@).skip(i as int) =~= Seq::<Seq<char>>::empty());
        assert(items_of(items@) + Seq::<DataVal>::empty() =~= items_of(items@));
    }
    let r = DataValue::List(items);
    proof {
        assert(data_model(r)->List_0 =~~= process_rows(ls));
        assert(data_model(r) =~~= process_list_data(raw@));
    }
    r
}

/// One row of a memory-consumer listing: lines with at least eleven
/// columns carry the owner, identifiers, shares and the command, whose
/// words are joined back together.
pub open spec fn ps_mem_row(l: Seq<char>) -> Option<DataVal> {
    let w = line_words(l);
    if w.len() >= 11 {
        Some(
            DataVal::Obj(
                seq![
                    ("user"@, DataVal::Text(w[0])),
                    ("pid"@, DataVal::Text(w[1])),
                    ("cpu_pct"@, DataVal::Text(w[2])),
                    ("mem_pct"@, DataVal::Text(w[3])),
                    ("vsz"@, DataVal::Text(w[4])),
                    ("rss"@, DataVal::Text(w[5])),
                    ("command"@, DataVal::Text(join_spaces(w.skip(10)))),
                ],
            ),
        )
    } else {
        None
    }
}

pub open spec fn ps_mem_rows(ls: Seq<Seq<char>>) -> Seq<DataVal>
    decreases ls.len(),
{
    if ls.len() == 0 {
        Seq::empty()
    } else {
        (match ps_mem_row(ls[0]) {
            Some(v) => seq![v],
            None => Seq::empty(),
        }) + ps_mem_rows(ls.drop_first())
    }
}

/// The memory-consumer listing parsed from the raw output.
pub open spec fn ps_mem_data(raw: Seq<char>) -> DataVal {
    DataVal::List(ps_mem_rows(tail_of(lines_of(raw))))
}

/// Parse a header-led memory-consumer listing.
pub fn parse_ps_mem(raw: &str) -> (r: DataValue)
    ensures
        data_model(r) == ps_mem_data(raw@),
{
    let lines = split_lines(raw);
    let ghost ls = tail_of(lines_of(raw@));
    let mut items: Vec<DataValue> = Vec::new();
    let mut i: usize = if lines.len() == 0 {
        0
    } else {
        1
    };
    proof {
        assert(ls =~= views_of(lines@).skip(i as int));
        assert(Seq::<DataVal>::empty() + ps_mem_rows(ls) =~= ps_mem_rows(ls));
    }
    while i < lines.len()
        invariant
            i <= lines@.len(),
            views_of(lines@) == lines_of(raw@),
            ls == tail_of(lines_of(raw@)),
            ps_mem_rows(ls) =~= items_of(items@) + ps_mem_rows(views_of(lines@).skip(i as int)),
        decreases lines@.len() - i,
    {
        let ghost rest = views_of(lines@).skip(i as int);
        proof {
            assert(rest.len() > 0);
            assert(rest[0] == lines@[i as int]@);
            assert(rest.drop_first() =~= views_of(lines@).skip(i as int + 1));
        }
        let ghost before = items_of(items@);
        let w = words_of_line(&lines[i]);
        if w.len() >= 11 {
            let command = join_words(&w, 10);
            proof {
                assert(views_of(w@).skip(10) =~= line_words(rest[0]).skip(10));
            }
            let mut ps: Vec<DataPair> = Vec::new();
            ps.push(DataPair { key: "user".to_owned(), value: DataValue::Text(w[0].clone()) });
            ps.push(DataPair { key: "pid".to_owned(), value: DataValue::Text(w[1].clone()) });
            ps.push(DataPair { key: "cpu_pct".to_owned(), value: DataValue::Text(w[2].clone()) });
            ps.push(DataPair { key: "mem_pct".to_owned(), value: DataValue::Text(w[3].clone()) });
            ps.push(DataPair { key: "vsz".to_owned(), value: DataValue::Text(w[4].clone()) });
            ps.push(DataPair { key: "rss".to_owned(), value: DataValue::Text(w[5].clone()) });
            ps.push(DataPair { key: "command".to_owned(), value: DataValue::Text(command) });
            let row = DataValue::Obj(ps);
            proof {
                reveal_with_fuel(data_model, 3);
                assert(data_model(row)->Obj_0 =~~= ps_mem_row(rest[0])->Some_0->Obj_0);
                assert(data_model(row) =~~= ps_mem_row(rest[0])->Some_0);
            }
            items.push(row);
            proof {
                assert(items_of(items@) =~= before.push(ps_mem_row(rest[0])->Some_0));
                assert(before + (seq![ps_mem_row(rest[0])->Some_0] + ps_mem_rows(
                    rest.drop_first(),
                )) =~= items_of(items@) + ps_mem_rows(rest.drop_first()));
            }
        } else {
            proof {
                assert(Seq::<DataVal>::empty() + ps_mem_rows(rest.drop_first()) =~= ps_mem_rows(
                    rest.drop_first(),
                ));
            }
        }
        i = i + 1;
    }
    proof {
        assert(views_of(lines@).skip(i as int) =~= Seq::<Seq<char>>::empty());
        assert(items_of(items@) + Seq::<DataVal>::empty() =~= items_of(items@));
    }
    let r = DataValue::List(items);
    proof {
        assert(data_model(r)->List_0 =~~= ps_mem_rows(ls));
        assert(data_model(r) =~~= ps_mem_data(raw@));
    }
    r
}

/// A one-entry object holding the raw text, used when a table cannot be
/// read.
pub open spec fn raw_data(raw: Seq<char>) -> DataVal {
    DataVal::Obj(seq![("raw"@, DataVal::Text(raw))])
}

fn raw_object(raw: &str) -> (r: DataValue)
    ensures
        data_model(r) == raw_data(raw@),
{
    let mut ps: Vec<DataPair> = Vec::new();
    ps.push(DataPair { key: "raw".to_owned(), value: DataValue::Text(raw.to_owned()) });
    let r = DataValue::Obj(ps);
    proof {
        reveal_with_fuel(data_model, 3);
        assert(data_model(r)->Obj_0 =~~= raw_data(raw@)->Obj_0);
        assert(data_model(r) =~~= raw_data(raw@));
    }
    r
}

/// The root-volume table parsed from the raw output: the second line's
/// columns, under their usual headings; fewer than five columns (or fewer
/// than two lines) leaves the raw text.
pub open spec fn df_data(raw: Seq<char>) -> DataVal {
    let ls = lines_of(raw);
    if ls.len() < 2 {
        raw_data(raw)
    } else {
        let w = line_words(ls[1]);
        if w.len() >= 9 {
            DataVal::Obj(
                seq![
                    ("filesystem"@, DataVal::Text(w[0])),
                    ("size"@, DataVal::Text(w[1])),
                    ("used"@, DataVal::Text(w[2])),
                    ("available"@, DataVal::Text(w[3])),
                    ("capacity"@, DataVal::Text(w[4])),
                    ("iused"@, DataVal::Text(w[5])),
                    ("ifree"@, DataVal::Text(w[6])),
                    ("iused_pct"@, DataVal::Text(w[7])),
                    ("mounted_on"@, DataVal::Text(w[8])),
                ],
            )
        } else if w.len() >= 5 {
            DataVal::Obj(
                seq![
                    ("filesystem"@, DataVal::Text(w[0])),
                    ("size"@, DataVal::Text(w[1])),
                    ("used"@, DataVal::Text(w[2])),
                    ("available"@, DataVal::Text(w[3])),
                    ("capacity"@, DataVal::Text(w[4])),
                ],
            )
        } else {
            raw_data(raw)
        }
    }
}

/// Parse the root-volume usage table printed by the host.
pub fn parse_df(raw: &str) -> (r: DataValue)
    ensures
        data_model(r) == df_data(raw@),
{
    let lines = split_lines(raw);
    if lines.len() < 2 {
        return raw_object(raw);
    }
    proof {
        assert(views_of(lines@)[1] == lines@[1]@);
    }
    let w = words_of_line(&lines[1]);
    if w.len() >= 9 {
        let mut ps: Vec<DataPair> = Vec::new();
        ps.push(DataPair { key: "filesystem".to_owned(), value: DataValue::Text(w[0].clone()) });
        ps.push(DataPair { key: "size".to_owned(), value: DataValue::Text(w[1].clone()) });
        ps.push(DataPair { key: "used".to_owned(), value: DataValue::Text(w[2].clone()) });
        ps.push(DataPair { key: "available".to_owned(), value: DataValue::Text(w[3].clone()) });
        ps.push(DataPair { key: "capacity".to_owned(), value: DataValue::Text(w[4].clone()) });
        ps.push(DataPair { key: "iused".to_owned(), value: DataValue::Text(w[5].clone()) });
        ps.push(DataPair { key: "ifree".to_owned(), value: DataValue::Text(w[6].clone()) });
        ps.push(DataPair { key: "iused_pct".to_owned(), value: DataValue::Text(w[7].clone()) });
        ps.push(DataPair { key: "mounted_on".to_owned(), value: DataValue::Text(w[8].clone()) });
        let r = DataValue::Obj(ps);
        proof {
            reveal_with_fuel(data_model, 3);
            assert(data_model(r)->Obj_0 =~~= df_data(raw@)->Obj_0);
            assert(data_model(r) =~~= df_data(raw@));
        }
        r
    } else if w.len() >= 5 {
        let mut ps: Vec<DataPair> = Vec::new();
        ps.push(DataPair { key: "filesystem".to_owned(), value: DataValue::Text(w[0].clone()) });
        ps.push(DataPair { key: "size".to_owned(), value: DataValue::Text(w[1].clone()) });
        ps.push(DataPair { key: "used".to_owned(), value: DataValue::Text(w[2].clone()) });
        ps.push(DataPair { key: "available".to_owned(), value: DataValue::Text(w[3].clone()) });
        ps.push(DataPair { key: "capacity".to_owned(), value: DataValue::Text(w[4].clone()) });
        let r = DataValue::Obj(ps);
        proof {
            reveal_with_fuel(data_model, 3);
            assert(data_model(r)->Obj_0 =~~= df_data(raw@)->Obj_0);
            assert(data_model(r) =~~= df_data(raw@));
        }
        r
    } else {
        raw_object(raw)
    }
}

/// One entry of a directory-size listing: size text under the path.
pub open spec fn du_entry(l: Seq<char>) -> Option<(Seq<char>, DataVal)> {
    let w = line_words(l);
    if w.len() >= 2 {
        Some((w[1], DataVal::Text(w[0])))
    } else {
        None
    }
}

pub open spec fn du_entries(ls: Seq<Seq<char>>) -> Seq<(Seq<char>, DataVal)>
    decreases ls.len(),
{
    if ls.len() == 0 {
        Seq::empty()
    } else {
        (match du_entry(ls[0]) {
            Some(e) => seq![e],
            None => Seq::empty(),
        }) + du_entries(ls.drop_first())
    }
}

/// The directory-size listing parsed from the raw output.
pub open spec fn du_data(raw: Seq<char>) -> DataVal {
    DataVal::Obj(du_entries(lines_of(raw)))
}

/// Parse a directory-size listing printed by the host.
pub fn parse_du(raw: &str) -> (r: DataValue)
    ensures
        data_model(r) == du_data(raw@),
{
    let lines = split_lines(raw);
    let ghost ls = lines_of(raw@);
    let mut pairs: Vec<DataPair> = Vec::new();
    let mut i: usize = 0;
    proof {
        assert(ls.skip(0) =~= ls);
        assert(Seq::<(Seq<char>, DataVal)>::empty() + du_entries(ls) =~= du_entries(ls));
    }
    while i < lines.len()
        invariant
            i <= lines@.len(),
            views_of(lines@) == ls,
            ls == lines_of(raw@),
            du_entries(ls) =~= entries_of(pairs@) + du_entries(ls.skip(i as int)),
        decreases lines@.len() - i,
    {
        proof {
            assert(ls.skip(i as int).len() > 0);
            assert(ls.skip(i as int)[0] == ls[i as int]);
            assert(ls.skip(i as int).drop_first() =~= ls.skip(i as int + 1));
            assert(lines@[i as int]@ == ls[i as int]);
        }
        let ghost before = entries_of(pairs@);
        let w = words_of_line(&lines[i]);
        if w.len() >= 2 {
            pairs.push(DataPair { key: w[1].clone(), value: DataValue::Text(w[0].clone()) });
            proof {
                assert(entries_of(pairs@) =~= before.push(du_entry(ls[i as int])->Some_0));
                assert(before + (seq![du_entry(ls[i as int])->Some_0] + du_entries(
                    ls.skip(i as int + 1),
                )) =~= entries_of(pairs@) + du_entries(ls.skip(i as int + 1)));
            }
        } else {
            proof {
                assert(Seq::<(Seq<char>, DataVal)>::empty() + du_entries(ls.skip(i as int + 1))
                    =~= du_entries(ls.skip(i as int + 1)));
            }
        }
        i = i + 1;
    }
    proof {
        assert(ls.skip(i as int) =~= Seq::<Seq<char>>::empty());
        assert(entries_of(pairs@) + Seq::<(Seq<char>, DataVal)>::empty() =~= entries_of(
            pairs@,
        ));
    }
    let r = DataValue::Obj(pairs);
    proof {
        assert(data_model(r)->Obj_0 =~~= du_entries(ls));
        assert(data_model(r) =~~= du_data(raw@));
    }
    r
}

/// A decimal reading fit into a 32-bit count, or zero: the standard
/// parser's behaviour with a fallback of zero.
pub open spec fn u32_or_zero(s: Seq<char>) -> int {
    if is_u64_str(s) && digits_val(u64_digits(s)) <= u32::MAX {
        digits_val(u64_digits(s))
    } else {
        0
    }
}

/// A decimal reading as a 64-bit count, or zero.
pub open spec fn u64_or_zero(s: Seq<char>) -> int {
    if is_u64_str(s) {
        digits_val(u64_digits(s))
    } else {
        0
    }
}

/// The processor report: the brand string, the core count, and the parsed
/// process listing.
pub open spec fn monitor_cpu_data(top_output: Seq<char>, ncpu: Seq<char>, brand: Seq<char>) -> DataVal {
    DataVal::Obj(
        seq![
            ("cpu_brand"@, DataVal::Text(brand)),
            ("core_count"@, DataVal::Int(u32_or_zero(ncpu))),
            ("top_processes"@, process_list_data(top_output)),
        ],
    )
}

/// Assemble the processor report from the host's command outputs.
pub fn monitor_cpu_report(top_output: &str, ncpu: &str, brand: &str) -> (r: ToolResult)
    ensures
        result_model(r) == report_ok(monitor_cpu_data(top_output@, ncpu@, brand@)),
{
    let core_count: i64 = match parse_u64(ncpu) {
        Some(n) => if n <= 0xffff_ffff {
            n as i64
        } else {
            0
        },
        None => 0,
    };
    let top_processes = parse_process_list(top_output);
    let mut ps: Vec<DataPair> = Vec::new();
    ps.push(DataPair { key: "cpu_brand".to_owned(), value: DataValue::Text(brand.to_owned()) });
    ps.push(DataPair { key: "core_count".to_owned(), value: DataValue::Int(core_count) });
    ps.push(DataPair { key: "top_processes".to_owned(), value: top_processes });
    let data = DataValue::Obj(ps);
    proof {
        reveal_with_fuel(data_model, 2);
        let g = monitor_cpu_data(top_output@, ncpu@, brand@);
        assert(data_model(data)->Obj_0 =~~= g->Obj_0);
        assert(data_model(data) =~~= g);
    }
    ToolResult { success: true, data, error: None }
}

/// The whole memory in hundredths of gigabytes, rounded to the nearest
/// hundredth.
pub open spec fn memory_centi_gb(bytes: int) -> int {
    (bytes * 100 + 536870912) / 1073741824
}

/// The memory report: the whole memory, the statistics table, and the
/// parsed consumer listing.
pub open spec fn monitor_memory_data(vm_raw: Seq<char>, memsize: Seq<char>, ps_raw: Seq<char>) -> DataVal {
    DataVal::Obj(
        seq![
            ("total_memory_gb"@, DataVal::Centi(memory_centi_gb(u64_or_zero(memsize)))),
            ("vm_stat"@, vm_stat_data(vm_raw)),
            ("top_memory_consumers"@, ps_mem_data(ps_raw)),
        ],
    )
}

/// Assemble the memory report from the host's command outputs.
pub fn monitor_memory_report(vm_raw: &str, memsize: &str, ps_raw: &str) -> (r: ToolResult)
    ensures
        result_model(r) == report_ok(monitor_memory_data(vm_raw@, memsize@, ps_raw@)),
{
    let total_bytes: u64 = match parse_u64(memsize) {
        Some(n) => n,
        None => 0,
    };
    let centi: u128 = ((total_bytes as u128) * 100 + 536870912) / 1073741824;
    proof {
        assert(centi <= 0x7fff_ffff_ffff_ffff) by {
            assert((total_bytes as u128) * 100 <= 0xffff_ffff_ffff_ffff * 100);
        };
    }
    let total = DataValue::Centi(centi as i64);
    let vm = parse_vm_stat(vm_raw);
    let top_mem = parse_ps_mem(ps_raw);
    let mut ps: Vec<DataPair> = Vec::new();
    ps.push(DataPair { key: "total_memory_gb".to_owned(), value: total });
    ps.push(DataPair { key: "vm_stat".to_owned(), value: vm });
    ps.push(DataPair { key: "top_memory_consumers".to_owned(), value: top_mem });
    let data = DataValue::Obj(ps);
    proof {
        reveal_with_fuel(data_model, 2);
        let g = monitor_memory_data(vm_raw@, memsize@, ps_raw@);
        assert(data_model(data)->Obj_0 =~~= g->Obj_0);
        assert(data_model(data) =~~= g);
    }
    ToolResult { success: true, data, error: None }
}

/// The disk report: the root volume and the common directory sizes.
pub open spec fn monitor_disk_data(df_raw: Seq<char>, du_raw: Seq<char>) -> DataVal {
    DataVal::Obj(
        seq![("root_volume"@, df_data(df_raw)), ("directory_sizes"@, du_data(du_raw))],
    )
}

/// Assemble the disk report from the host's command outputs.
pub fn monitor_disk_report(df_raw: &str, du_raw: &str) -> (r: ToolResult)
    ensures
        result_model(r) == report_ok(monitor_disk_data(df_raw@, du_raw@)),
{
    let root_volume = parse_df(df_raw);
    let directory_sizes = parse_du(du_raw);
    let mut ps: Vec<DataPair> = Vec::new();
    ps.push(DataPair { key: "root_volume".to_owned(), value: root_volume });
    ps.push(DataPair { key: "directory_sizes".to_owned(), value: directory_sizes });
    let data = DataValue::Obj(ps);
    proof {
        let g = monitor_disk_data(df_raw@, du_raw@);
        assert(data_model(data)->Obj_0 =~~= g->Obj_0);
        assert(data_model(data) =~~= g);
    }
    ToolResult { success: true, data, error: None }
}

/// One row of the connection listing: nine or more columns carry the
/// command, identifier, owner and endpoint; anything else keeps the raw
/// line.
pub open spec fn connection_row(l: Seq<char>) -> DataVal {
    let w = line_words(l);
    if w.len() >= 9 {
        DataVal::Obj(
            seq![
                ("command"@, DataVal::Text(w[0])),
                ("pid"@, DataVal::Text(w[1])),
                ("user"@, DataVal::Text(w[2])),
                ("name"@, DataVal::Text(w[8])),
            ],
        )
    } else {
        raw_data(l)
    }
}

pub open spec fn connection_rows(ls: Seq<Seq<char>>) -> Seq<DataVal> {
    ls.map_values(|l: Seq<char>| connection_row(l))
}

/// The neighbour table: each line trimmed.
pub open spec fn arp_rows(ls: Seq<Seq<char>>) -> Seq<DataVal> {
    ls.map_values(|l: Seq<char>| DataVal::Text(trim_spec(l)))
}

/// The network report: the established connections and the neighbour
/// table.
pub open spec fn monitor_network_data(connections: Seq<char>, arp: Seq<char>) -> DataVal {
    DataVal::Obj(
        seq![
            ("established_connections"@, DataVal::List(connection_rows(lines_of(connections)))),
            ("arp_table"@, DataVal::List(arp_rows(lines_of(arp)))),
        ],
    )
}

/// Assemble the network report from the host's command outputs.
pub fn monitor_network_report(connections: &str, arp: &str) -> (r: ToolResult)
    ensures
        result_model(r) == report_ok(monitor_network_data(connections@, arp@)),
{
    let conn_lines = split_lines(connections);
    let mut conn_items: Vec<DataValue> = Vec::new();
    let mut i: usize = 0;
    while i < conn_lines.len()
        invariant
            i <= conn_lines@.len(),
            views_of(conn_lines@) == lines_of(connections@),
            conn_items@.len() == i,
            forall|j: int|
                0 <= j < i ==> data_model(#[trigger] conn_items@[j]) == connection_row(
                    lines_of(connections@)[j],
                ),
        decreases conn_lines@.len() - i,
    {
        proof {
            assert(lines_of(connections@)[i as int] == conn_lines@[i as int]@);
        }
        let w = words_of_line(&conn_lines[i]);
        if w.len() >= 9 {
            let mut ps: Vec<DataPair> = Vec::new();
            ps.push(DataPair { key: "command".to_owned(), value: DataValue::Text(w[0].clone()) });
            ps.push(DataPair { key: "pid".to_owned(), value: DataValue::Text(w[1].clone()) });
            ps.push(DataPair { key: "user".to_owned(), value: DataValue::Text(w[2].clone()) });
            ps.push(DataPair { key: "name".to_owned(), value: DataValue::Text(w[8].clone()) });
            let row = DataValue::Obj(ps);
            proof {
                reveal_with_fuel(data_model, 3);
                assert(data_model(row)->Obj_0 =~~= connection_row(
                    lines_of(connections@)[i as int],
                )->Obj_0);
                assert(data_model(row) =~~= connection_row(lines_of(connections@)[i as int]));
            }
            conn_items.push(row);
        } else {
            let row = raw_object(conn_lines[i].as_str());
            conn_items.push(row);
        }
        i = i + 1;
    }
    let arp_lines = split_lines(arp);
    let mut arp_items: Vec<DataValue> = Vec::new();
    let mut k: usize = 0;
    while k < arp_lines.len()
        invariant
            k <= arp_lines@.len(),
            views_of(arp_lines@) == lines_of(arp@),
            arp_items@.len() == k,
            forall|j: int|
                0 <= j < k ==> data_model(#[trigger] arp_items@[j]) == DataVal::Text(
                    trim_spec(lines_of(arp@)[j]),
                ),
        decreases arp_lines@.len() - k,
    {
        proof {
            assert(lines_of(arp@)[k as int] == arp_lines@[k as int]@);
        }
        arp_items.push(DataValue::Text(trim_str(arp_lines[k].as_str())));
        k = k + 1;
    }
    let conn_value = DataValue::List(conn_items);
    let arp_value = DataValue::List(arp_items);
    proof {
        assert(data_model(conn_value)->List_0 =~~= connection_rows(lines_of(connections@)));
        assert(data_model(arp_value)->List_0 =~~= arp_rows(lines_of(arp@)));
    }
    let mut ps: Vec<DataPair> = Vec::new();
    ps.push(DataPair { key: "established_connections".to_owned(), value: conn_value });
    ps.push(DataPair { key: "arp_table".to_owned(), value: arp_value });
    let data = DataValue::Obj(ps);
    proof {
        let g = monitor_network_data(connections@, arp@);
        assert(data_model(data)->Obj_0 =~~= g->Obj_0);
        assert(data_model(data) =~~= g);
    }
    ToolResult { success: true, data, error: None }
}

/// The position of the first occurrence of `c` in a line, if any.
pub open spec fn char_index(l: Seq<char>, c: char) -> Option<int>
    decreases l.len(),
{
    if l.len() == 0 {
        None
    } else if l[0] == c {
        Some(0)
    } else {
        match char_index(l.drop_first(), c) {
            Some(i) => Some(i + 1),
            None => None,
        }
    }
}

proof fn lemma_char_index_at(l: Seq<char>, c: char, i: int)
    requires
        0 <= i < l.len(),
        l[i] == c,
        forall|j: int| 0 <= j < i ==> l[j] != c,
    ensures
        char_index(l, c) == Some(i),
    decreases i,
{
    if i > 0 {
        assert(forall|j: int| 0 <= j < i - 1 ==> l.drop_first()[j] != c);
        lemma_char_index_at(l.drop_first(), c, i - 1);
    }
}

proof fn lemma_char_index_none(l: Seq<char>, c: char)
    requires
        forall|j: int| 0 <= j < l.len() ==> l[j] != c,
    ensures
        char_index(l, c) is None,
    decreases l.len(),
{
    if l.len() > 0 {
        assert(forall|j: int| 0 <= j < l.drop_first().len() ==> l.drop_first()[j] != c);
        lemma_char_index_none(l.drop_first(), c);
    }
}

/// One entry of the wireless settings table: the key lower-cased and
/// underscore-joined, the value trimmed text.
pub open spec fn wifi_entry(l: Seq<char>) -> Option<(Seq<char>, DataVal)> {
    match colon_index(l) {
        None => None,
        Some(i) => Some(
            (
                lower_of(underscored(trim_spec(l.take(i)))),
                DataVal::Text(trim_spec(l.skip(i + 1))),
            ),
        ),
    }
}

pub open spec fn wifi_entries(ls: Seq<Seq<char>>) -> Seq<(Seq<char>, DataVal)>
    decreases ls.len(),
{
    if ls.len() == 0 {
        Seq::empty()
    } else {
        (match wifi_entry(ls[0]) {
            Some(e) => seq![e],
            None => Seq::empty(),
        }) + wifi_entries(ls.drop_first())
    }
}

/// The last trimmed line containing a round-trip summary, if any.
pub open spec fn last_rtt_line(ls: Seq<Seq<char>>) -> Option<Seq<char>>
    decreases ls.len(),
{
    if ls.len() == 0 {
        None
    } else if has_substring(ls.last(), "round-trip"@) || has_substring(ls.last(), "rtt"@) {
        Some(trim_spec(ls.last()))
    } else {
        last_rtt_line(ls.drop_last())
    }
}

/// The last trimmed line mentioning packet loss, if any.
pub open spec fn last_loss_line(ls: Seq<Seq<char>>) -> Option<Seq<char>>
    decreases ls.len(),
{
    if ls.len() == 0 {
        None
    } else if has_substring(ls.last(), "packet loss"@) {
        Some(trim_spec(ls.last()))
    } else {
        last_loss_line(ls.drop_last())
    }
}

/// The destination is reachable: the ping output reports zero loss.
pub open spec fn ping_reachable(ping: Seq<char>) -> bool {
    has_substring(ping, "0.0% packet loss"@) || has_substring(ping, "0% packet loss"@)
}

/// The ping summary entries: reachability, then the summary line and the
/// loss line where the output has them.
pub open spec fn ping_entries(ping: Seq<char>) -> Seq<(Seq<char>, DataVal)> {
    seq![("reachable"@, DataVal::Bool(ping_reachable(ping)))] + (match last_rtt_line(
        lines_of(ping),
    ) {
        Some(l) => seq![("summary"@, DataVal::Text(l))],
        None => Seq::empty(),
    }) + (match last_loss_line(lines_of(ping)) {
        Some(l) => seq![("packet_loss_line"@, DataVal::Text(l))],
        None => Seq::empty(),
    })
}

/// Name resolution works: an address is reported and no failure notice.
pub open spec fn dns_resolves(dns: Seq<char>) -> bool {
    has_substring(dns, "Address"@) && !has_substring(dns, "server can't find"@)
}

/// The network diagnosis: the wireless settings, the ping summary and the
/// name-resolution check.
pub open spec fn diagnose_network_data(wifi: Seq<char>, ping: Seq<char>, dns: Seq<char>) -> DataVal {
    DataVal::Obj(
        seq![
            ("wifi"@, DataVal::Obj(wifi_entries(lines_of(wifi)))),
            ("ping"@, DataVal::Obj(ping_entries(ping))),
            (
                "dns"@,
                DataVal::Obj(
                    seq![
                        ("resolves"@, DataVal::Bool(dns_resolves(dns))),
                        ("raw"@, DataVal::Text(dns)),
                    ],
                ),
            ),
        ],
    )
}

/// Assemble the network diagnosis from the host's command outputs.
pub fn diagnose_network_report(wifi_info: &str, ping: &str, dns: &str) -> (r: ToolResult)
    ensures
        result_model(r) == report_ok(diagnose_network_data(wifi_info@, ping@, dns@)),
{
    // wireless settings table
    let wifi_lines = split_lines(wifi_info);
    let ghost wls = lines_of(wifi_info@);
    let mut wifi_pairs: Vec<DataPair> = Vec::new();
    let mut i: usize = 0;
    proof {
        assert(wls.skip(0) =~= wls);
        assert(Seq::<(Seq<char>, DataVal)>::empty() + wifi_entries(wls) =~= wifi_entries(wls));
    }
    while i < wifi_lines.len()
        invariant
            i <= wifi_lines@.len(),
            views_of(wifi_lines@) == wls,
            wls == lines_of(wifi_info@),
            wifi_entries(wls) =~= entries_of(wifi_pairs@) + wifi_entries(wls.skip(i as int)),
        decreases wifi_lines@.len() - i,
    {
        proof {
            assert(wls.skip(i as int).len() > 0);
            assert(wls.skip(i as int)[0] == wls[i as int]);
            assert(wls.skip(i as int).drop_first() =~= wls.skip(i as int + 1));
            assert(wifi_lines@[i as int]@ == wls[i as int]);
        }
        let ghost before = entries_of(wifi_pairs@);
        match split_at_colon(&wifi_lines[i]) {
            Some((key_raw, val_raw)) => {
                let key = lower(replace_spaces(&trim_str(key_raw.as_str())).as_str());
                let value = DataValue::Text(trim_str(val_raw.as_str()));
                proof {
                    assert(wifi_entry(wls[i as int]) matches Some(e) && e.0 == key@ && e.1
                        == data_model(value));
                }
                wifi_pairs.push(DataPair { key, value });
                proof {
                    assert(entries_of(wifi_pairs@) =~= before.push(
                        wifi_entry(wls[i as int])->Some_0,
                    ));
                    assert(before + (seq![wifi_entry(wls[i as int])->Some_0] + wifi_entries(
                        wls.skip(i as int + 1),
                    )) =~= entries_of(wifi_pairs@) + wifi_entries(wls.skip(i as int + 1)));
                }
            },
            None => {
                proof {
                    assert(Seq::<(Seq<char>, DataVal)>::empty() + wifi_entries(
                        wls.skip(i as int + 1),
                    ) =~= wifi_entries(wls.skip(i as int + 1)));
                }
            },
        }
        i = i + 1;
    }
    proof {
        assert(wls.skip(i as int) =~= Seq::<Seq<char>>::empty());
        assert(entries_of(wifi_pairs@) + Seq::<(Seq<char>, DataVal)>::empty() =~= entries_of(
            wifi_pairs@,
        ));
    }
    let wifi_value = DataValue::Obj(wifi_pairs);
    proof {
        assert(data_model(wifi_value)->Obj_0 =~~= wifi_entries(wls));
    }
    // ping summary
    let ping_cs = chars_vec(ping);
    let reachable = contains_lit(&ping_cs, "0.0% packet loss") || contains_lit(
        &ping_cs,
        "0% packet loss",
    );
    let ping_lines = split_lines(ping);
    let ghost pls = lines_of(ping@);
    let mut summary: Option<String> = None;
    let mut loss: Option<String> = None;
    let mut k: usize = 0;
    proof {
        assert(pls.take(0) =~= Seq::<Seq<char>>::empty());
    }
    while k < ping_lines.len()
        invariant
            k <= ping_lines@.len(),
            views_of(ping_lines@) == pls,
            pls == lines_of(ping@),
            match summary {
                Some(s) => last_rtt_line(pls.take(k as int)) == Some(s@),
                None => last_rtt_line(pls.take(k as int)) is None,
            },
            match loss {
                Some(s) => last_loss_line(pls.take(k as int)) == Some(s@),
                None => last_loss_line(pls.take(k as int)) is None,
            },
        decreases ping_lines@.len() - k,
    {
        proof {
            assert(pls.take(k as int + 1).last() == pls[k as int]);
            assert(pls.take(k as int + 1).drop_last() =~= pls.take(k as int));
            assert(ping_lines@[k as int]@ == pls[k as int]);
        }
        let lcs = chars_vec(ping_lines[k].as_str());
        if contains_lit(&lcs, "round-trip") || contains_lit(&lcs, "rtt") {
            summary = Some(trim_str(ping_lines[k].as_str()));
        }
        if contains_lit(&lcs, "packet loss") {
            loss = Some(trim_str(ping_lines[k].as_str()));
        }
        k = k + 1;
    }
    proof {
        assert(pls.take(k as int) =~= pls);
    }
    let mut ping_pairs: Vec<DataPair> = Vec::new();
    ping_pairs.push(DataPair { key: "reachable".to_owned(), value: DataValue::Bool(reachable) });
    match summary {
        Some(s) => {
            ping_pairs.push(DataPair { key: "summary".to_owned(), value: DataValue::Text(s) });
        },
        None => {},
    }
    match loss {
        Some(s) => {
            ping_pairs.push(
                DataPair { key: "packet_loss_line".to_owned(), value: DataValue::Text(s) },
            );
        },
        None => {},
    }
    let ping_value = DataValue::Obj(ping_pairs);
    proof {
        reveal_with_fuel(data_model, 2);
        assert(data_model(ping_value)->Obj_0 =~~= ping_entries(ping@));
    }
    // name resolution
    let dns_cs = chars_vec(dns);
    let resolves = contains_lit(&dns_cs, "Address") && !contains_lit(&dns_cs, "server can't find");
    let mut dns_pairs: Vec<DataPair> = Vec::new();
    dns_pairs.push(DataPair { key: "resolves".to_owned(), value: DataValue::Bool(resolves) });
    dns_pairs.push(DataPair { key: "raw".to_owned(), value: DataValue::Text(dns.to_owned()) });
    let dns_value = DataValue::Obj(dns_pairs);
    proof {
        reveal_with_fuel(data_model, 2);
        assert(data_model(dns_value)->Obj_0 =~~= seq![
            ("resolves"@, DataVal::Bool(dns_resolves(dns@))),
            ("raw"@, DataVal::Text(dns@)),
        ]);
    }
    let mut ps: Vec<DataPair> = Vec::new();
    ps.push(DataPair { key: "wifi".to_owned(), value: wifi_value });
    ps.push(DataPair { key: "ping".to_owned(), value: ping_value });
    ps.push(DataPair { key: "dns".to_owned(), value: dns_value });
    let data = DataValue::Obj(ps);
    proof {
        let g = diagnose_network_data(wifi_info@, ping@, dns@);
        assert(data_model(data)->Obj_0 =~~= g->Obj_0);
        assert(data_model(data) =~~= g);
    }
    ToolResult { success: true, data, error: None }
}

/// The longest run of decimal digits ending a text.
pub open spec fn digit_suffix(p: Seq<char>) -> Seq<char>
    decreases p.len(),
{
    if p.len() > 0 && dec_digit(p.last()) {
        digit_suffix(p.drop_last()).push(p.last())
    } else {
        Seq::empty()
    }
}

/// The battery gauge and charging state taken from the power report, line
/// by line: each line showing a percent sign supplies the digits before
/// its first percent sign, and updates the state by the first matching
/// keyword; later lines win.
pub open spec fn battery_state(ls: Seq<Seq<char>>) -> (Option<Seq<char>>, Seq<char>)
    decreases ls.len(),
{
    if ls.len() == 0 {
        (None::<Seq<char>>, "unknown"@)
    } else {
        let prev = battery_state(ls.drop_last());
        let l = ls.last();
        if has_substring(l, "%"@) {
            let pct = match char_index(l, '%') {
                Some(i) => Some(digit_suffix(l.take(i))),
                None => prev.0,
            };
            let status = if has_substring(l, "charging"@) {
                "charging"@
            } else if has_substring(l, "discharging"@) {
                "discharging"@
            } else if has_substring(l, "charged"@) {
                "charged"@
            } else if has_substring(l, "AC attached"@) {
                "ac_attached"@
            } else {
                prev.1
            };
            (pct, status)
        } else {
            prev
        }
    }
}

/// The battery percentage as a payload value: the gauge digits when they
/// read as a 32-bit count, otherwise null.
pub open spec fn battery_percentage(pct: Option<Seq<char>>) -> DataVal {
    match pct {
        Some(ds) => if is_u64_str(ds) && digits_val(u64_digits(ds)) <= u32::MAX {
            DataVal::Int(digits_val(u64_digits(ds)))
        } else {
            DataVal::Null
        },
        None => DataVal::Null,
    }
}

/// The battery report: the gauge, the charging state, and both raw
/// outputs.
pub open spec fn diagnose_battery_data(batt: Seq<char>, power_profile: Seq<char>) -> DataVal {
    let st = battery_state(lines_of(batt));
    DataVal::Obj(
        seq![
            ("percentage"@, battery_percentage(st.0)),
            ("status"@, DataVal::Text(st.1)),
            ("pmset_raw"@, DataVal::Text(batt)),
            ("power_profile"@, DataVal::Text(power_profile)),
        ],
    )
}

/// The digits immediately before the first percent sign of a line.
fn gauge_digits(line: &String) -> (r: Option<String>)
    ensures
        match char_index(line@, '%') {
            Some(i) => r matches Some(s) && s@ == digit_suffix(line@.take(i)),
            None => r is None,
        },
{
    let cs = chars_vec(line.as_str());
    let mut i: usize = 0;
    while i < cs.len()
        invariant
            i <= cs@.len(),
            cs@ == line@,
            forall|j: int| 0 <= j < i ==> line@[j] != '%',
        decreases cs@.len() - i,
    {
        if cs[i] == '%' {
            proof {
                lemma_char_index_at(line@, '%', i as int);
            }
            let mut j: usize = i;
            proof {
                assert(line@.subrange(i as int, i as int) =~= Seq::<char>::empty());
                assert(digit_suffix(line@.take(i as int)) =~= digit_suffix(line@.take(i as int))
                    + line@.subrange(i as int, i as int));
            }
            loop
                invariant
                    j <= i < cs@.len(),
                    cs@ == line@,
                    digit_suffix(line@.take(i as int)) =~= digit_suffix(line@.take(j as int))
                        + line@.subrange(j as int, i as int),
                ensures
                    j <= i < cs@.len(),
                    cs@ == line@,
                    digit_suffix(line@.take(i as int)) =~= digit_suffix(line@.take(j as int))
                        + line@.subrange(j as int, i as int),
                    j == 0 || !dec_digit(line@[j - 1]),
                decreases j,
            {
                if j == 0 {
                    break ;
                }
                let c = cs[j - 1];
                if !(c >= '0' && c <= '9') {
                    break ;
                }
                proof {
                    assert(line@.take(j as int).last() == line@[j - 1]);
                    assert(line@.take(j as int).drop_last() =~= line@.take(j as int - 1));
                    assert(line@.subrange(j as int - 1, i as int) =~= seq![line@[j - 1]]
                        + line@.subrange(j as int, i as int));
                    assert(digit_suffix(line@.take(j as int - 1)).push(line@[j - 1])
                        + line@.subrange(j as int, i as int) =~= digit_suffix(
                        line@.take(j as int - 1),
                    ) + line@.subrange(j as int - 1, i as int));
                }
                j = j - 1;
            }
            proof {
                assert(digit_suffix(line@.take(j as int)) =~= Seq::<char>::empty());
                assert(digit_suffix(line@.take(i as int)) =~= line@.subrange(j as int, i as int));
            }
            let mut digits: Vec<char> = Vec::new();
            let mut q: usize = j;
            while q < i
                invariant
                    j <= q <= i < cs@.len(),
                    cs@ == line@,
                    digits@ =~= line@.subrange(j as int, q as int),
                decreases i - q,
            {
                proof {
                    assert(line@.subrange(j as int, q as int + 1) =~= line@.subrange(
                        j as int,
                        q as int,
                    ).push(line@[q as int]));
                }
                digits.push(cs[q]);
                q = q + 1;
            }
            return Some(string_of_chars(&digits));
        }
        i = i + 1;
    }
    proof {
        lemma_char_index_none(line@, '%');
    }
    None
}

/// Assemble the battery report from the host's command outputs.
pub fn diagnose_battery_report(batt: &str, power_profile: &str) -> (r: ToolResult)
    ensures
        result_model(r) == report_ok(diagnose_battery_data(batt@, power_profile@)),
{
    let lines = split_lines(batt);
    let ghost ls = lines_of(batt@);
    let mut pct: Option<String> = None;
    let mut status: String = String::from_str("unknown");
    let mut i: usize = 0;
    proof {
        assert(ls.take(0) =~= Seq::<Seq<char>>::empty());
    }
    while i < lines.len()
        invariant
            i <= lines@.len(),
            views_of(lines@) == ls,
            ls == lines_of(batt@),
            match pct {
                Some(s) => battery_state(ls.take(i as int)).0 == Some(s@),
                None => battery_state(ls.take(i as int)).0 is None,
            },
            status@ == battery_state(ls.take(i as int)).1,
        decreases lines@.len() - i,
    {
        proof {
            assert(ls.take(i as int + 1).last() == ls[i as int]);
            assert(ls.take(i as int + 1).drop_last() =~= ls.take(i as int));
            assert(lines@[i as int]@ == ls[i as int]);
        }
        let lcs = chars_vec(lines[i].as_str());
        if contains_lit(&lcs, "%") {
            match gauge_digits(&lines[i]) {
                Some(d) => {
                    pct = Some(d);
                },
                None => {},
            }
            if contains_lit(&lcs, "charging") {
                status = String::from_str("charging");
            } else if contains_lit(&lcs, "discharging") {
                status = String::from_str("discharging");
            } else if contains_lit(&lcs, "charged") {
                status = String::from_str("charged");
            } else if contains_lit(&lcs, "AC attached") {
                status = String::from_str("ac_attached");
            }
        }
        i = i + 1;
    }
    proof {
        assert(ls.take(i as int) =~= ls);
    }
    let percentage: DataValue = match &pct {
        Some(d) => match parse_u64(d.as_str()) {
            Some(n) => if n <= 0xffff_ffff {
                DataValue::Int(n as i64)
            } else {
                DataValue::Null
            },
            None => DataValue::Null,
        },
        None => DataValue::Null,
    };
    let mut ps: Vec<DataPair> = Vec::new();
    ps.push(DataPair { key: "percentage".to_owned(), value: percentage });
    ps.push(DataPair { key: "status".to_owned(), value: DataValue::Text(status) });
    ps.push(DataPair { key: "pmset_raw".to_owned(), value: DataValue::Text(batt.to_owned()) });
    ps.push(
        DataPair {
            key: "power_profile".to_owned(),
            value: DataValue::Text(power_profile.to_owned()),
        },
    );
    let data = DataValue::Obj(ps);
    proof {
        reveal_with_fuel(data_model, 2);
        let g = diagnose_battery_data(batt@, power_profile@);
        assert(data_model(data)->Obj_0 =~~= g->Obj_0);
        assert(data_model(data) =~~= g);
    }
    ToolResult { success: true, data, error: None }
}

/// One enabled/raw section of the security report.
pub open spec fn security_section(enabled: bool, raw: Seq<char>) -> DataVal {
    DataVal::Obj(seq![("enabled"@, DataVal::Bool(enabled)), ("raw"@, DataVal::Text(raw))])
}

/// The security report: encryption, system protection and the firewall.
pub open spec fn check_security_data(filevault: Seq<char>, sip: Seq<char>, firewall: Seq<char>) -> DataVal {
    DataVal::Obj(
        seq![
            ("filevault"@, security_section(has_substring(filevault, "On"@), filevault)),
            ("sip"@, security_section(has_substring(sip, "enabled"@), sip)),
            ("firewall"@, security_section(has_substring(firewall, "enabled"@), firewall)),
        ],
    )
}

fn security_part(enabled: bool, raw: &str) -> (r: DataValue)
    ensures
        data_model(r) == security_section(enabled, raw@),
{
    let mut ps: Vec<DataPair> = Vec::new();
    ps.push(DataPair { key: "enabled".to_owned(), value: DataValue::Bool(enabled) });
    ps.push(DataPair { key: "raw".to_owned(), value: DataValue::Text(raw.to_owned()) });
    let r = DataValue::Obj(ps);
    proof {
        reveal_with_fuel(data_model, 2);
        assert(data_model(r)->Obj_0 =~~= security_section(enabled, raw@)->Obj_0);
        assert(data_model(r) =~~= security_section(enabled, raw@));
    }
    r
}

/// Assemble the security report from the host's command outputs.
pub fn check_security_report(filevault: &str, sip: &str, firewall: &str) -> (r: ToolResult)
    ensures
        result_model(r) == report_ok(check_security_data(filevault@, sip@, firewall@)),
{
    let fv_cs = chars_vec(filevault);
    let sip_cs = chars_vec(sip);
    let fw_cs = chars_vec(firewall);
    let fv = security_part(contains_lit(&fv_cs, "On"), filevault);
    let sp = security_part(contains_lit(&sip_cs, "enabled"), sip);
    let fw = security_part(contains_lit(&fw_cs, "enabled"), firewall);
    let mut ps: Vec<DataPair> = Vec::new();
    ps.push(DataPair { key: "filevault".to_owned(), value: fv });
    ps.push(DataPair { key: "sip".to_owned(), value: sp });
    ps.push(DataPair { key: "firewall".to_owned(), value: fw });
    let data = DataValue::Obj(ps);
    proof {
        let g = check_security_data(filevault@, sip@, firewall@);
        assert(data_model(data)->Obj_0 =~~= g->Obj_0);
        assert(data_model(data) =~~= g);
    }
    ToolResult { success: true, data, error: None }
}

/// A text split at every comma-space separator, scanned left to right.
pub open spec fn csv_rec(s: Seq<char>, cur: Seq<char>) -> Seq<Seq<char>>
    decreases s.len(),
{
    if s.len() == 0 {
        seq![cur]
    } else if s.len() >= 2 && s[0] == ',' && s[1] == ' ' {
        seq![cur] + csv_rec(s.skip(2), Seq::empty())
    } else {
        csv_rec(s.drop_first(), cur.push(s[0]))
    }
}

/// A text split at every comma-space separator.
pub open spec fn csv_split(s: Seq<char>) -> Seq<Seq<char>> {
    csv_rec(s, Seq::empty())
}

/// Split a text at every comma-space separator.
fn split_comma_space(s: &str) -> (r: Vec<String>)
    ensures
        views_of(r@) == csv_split(s@),
{
    let cs = chars_vec(s);
    let mut out: Vec<String> = Vec::new();
    let mut cur: Vec<char> = Vec::new();
    let mut i: usize = 0;
    proof {
        assert(cs@.skip(0) =~= cs@);
        assert(views_of(out@) =~= Seq::<Seq<char>>::empty());
        assert(Seq::<Seq<char>>::empty() + csv_rec(s@, cur@) =~= csv_rec(s@, cur@));
    }
    while i < cs.len()
        invariant
            i <= cs@.len(),
            cs@ == s@,
            csv_split(s@) == views_of(out@) + csv_rec(s@.skip(i as int), cur@),
        decreases cs@.len() - i,
    {
        proof {
            assert(s@.skip(i as int).len() > 0);
            assert(s@.skip(i as int)[0] == s@[i as int]);
            assert(s@.skip(i as int).drop_first() =~= s@.skip(i as int + 1));
        }
        if cs[i] == ',' && i + 1 < cs.len() && cs[i + 1] == ' ' {
            proof {
                assert(s@.skip(i as int)[1] == s@[i as int + 1]);
                assert(s@.skip(i as int).skip(2) =~= s@.skip(i as int + 2));
            }
            let ghost old_out = out@;
            let ghost w = cur@;
            let word = string_of_chars(&cur);
            out.push(word);
            cur = Vec::new();
            proof {
                assert(views_of(out@) =~= views_of(old_out).push(w));
                assert(views_of(old_out) + (seq![w] + csv_rec(s@.skip(i as int + 2), cur@))
                    =~= views_of(out@) + csv_rec(s@.skip(i as int + 2), cur@));
            }
            i = i + 2;
        } else {
            cur.push(cs[i]);
            i = i + 1;
        }
    }
    proof {
        assert(s@.skip(i as int) =~= Seq::<char>::empty());
    }
    let ghost old_out = out@;
    let ghost w = cur@;
    let word = string_of_chars(&cur);
    out.push(word);
    proof {
        assert(views_of(out@) =~= views_of(old_out).push(w));
        assert(views_of(old_out) + seq![w] =~= views_of(out@));
    }
    out
}

/// Each segment trimmed, as payload text.
pub open spec fn trimmed_items(ws: Seq<Seq<char>>) -> Seq<DataVal> {
    ws.map_values(|w: Seq<char>| DataVal::Text(trim_spec(w)))
}

/// The startup report: the login items (an empty output means none) and
/// the launch agents, one per line.
pub open spec fn check_startup_data(login_items: Seq<char>, launch_agents: Seq<char>) -> DataVal {
    let login = if login_items.len() == 0 {
        Seq::<DataVal>::empty()
    } else {
        trimmed_items(csv_split(login_items))
    };
    let agents = if launch_agents.len() == 0 {
        Seq::<DataVal>::empty()
    } else {
        trimmed_items(lines_of(launch_agents))
    };
    DataVal::Obj(
        seq![
            ("login_items"@, DataVal::List(login)),
            ("launch_agents"@, DataVal::List(agents)),
        ],
    )
}

fn trimmed_list(parts: &Vec<String>) -> (r: Vec<DataValue>)
    ensures
        items_of(r@) == trimmed_items(views_of(parts@)),
{
    let mut out: Vec<DataValue> = Vec::new();
    let mut i: usize = 0;
    while i < parts.len()
        invariant
            i <= parts@.len(),
            out@.len() == i,
            forall|j: int|
                0 <= j < i ==> data_model(#[trigger] out@[j]) == DataVal::Text(
                    trim_spec(parts@[j]@),
                ),
        decreases parts@.len() - i,
    {
        out.push(DataValue::Text(trim_str(parts[i].as_str())));
        i = i + 1;
    }
    proof {
        assert(items_of(out@) =~~= trimmed_items(views_of(parts@)));
    }
    out
}

/// Assemble the startup report from the host's command outputs.
pub fn check_startup_report(login_items: &str, launch_agents: &str) -> (r: ToolResult)
    ensures
        result_model(r) == report_ok(check_startup_data(login_items@, launch_agents@)),
{
    let login: Vec<DataValue> = if login_items.is_empty() {
        Vec::new()
    } else {
        let parts = split_comma_space(login_items);
        trimmed_list(&parts)
    };
    let agents: Vec<DataValue> = if launch_agents.is_empty() {
        Vec::new()
    } else {
        let ls = split_lines(launch_agents);
        trimmed_list(&ls)
    };
    let login_value = DataValue::List(login);
    let agents_value = DataValue::List(agents);
    proof {
        assert(data_model(login_value)->List_0 =~~= check_startup_data(
            login_items@,
            launch_agents@,
        )->Obj_0[0].1->List_0);
        assert(data_model(agents_value)->List_0 =~~= check_startup_data(
            login_items@,
            launch_agents@,
        )->Obj_0[1].1->List_0);
    }
    let mut ps: Vec<DataPair> = Vec::new();
    ps.push(DataPair { key: "login_items".to_owned(), value: login_value });
    ps.push(DataPair { key: "launch_agents".to_owned(), value: agents_value });
    let data = DataValue::Obj(ps);
    proof {
        let g = check_startup_data(login_items@, launch_agents@);
        assert(data_model(data)->Obj_0 =~~= g->Obj_0);
        assert(data_model(data) =~~= g);
    }
    ToolResult { success: true, data, error: None }
}

/// What a kill request decides before anything runs: the process name must
/// be supplied, and critical system processes are refused.
pub open spec fn kill_request_model(args: ArgVal) -> Result<Seq<char>, ResultModel> {
    let name = match args {
        ArgVal::Obj(entries) => match val_get(entries, "process_name"@) {
            Some(v) => match v {
                ArgVal::Text(s) => Some(s),
                _ => None,
            },
            None => None,
        },
        _ => None,
    };
    match name {
        None => Err(
            ResultModel {
                success: false,
                data: DataVal::Null,
                error: Some("Missing required parameter: process_name"@),
            },
        ),
        Some(n) => if forbidden_process_spec(n) {
            Err(
                ResultModel {
                    success: false,
                    data: DataVal::Obj(seq![("process_name"@, DataVal::Text(n))]),
                    error: Some("Refusing to kill system-critical process: "@ + n),
                },
            )
        } else {
            Ok(n)
        },
    }
}

/// Decide a kill request: `Ok` carries the process name the host should
/// signal; `Err` carries the refusal to hand back unexecuted.
pub fn kill_process_request(args: &ArgValue) -> (r: Result<String, ToolResult>)
    ensures
        match kill_request_model(arg_model(*args)) {
            Ok(n) => r matches Ok(s) && s@ == n,
            Err(m) => r matches Err(t) && result_model(t) == m,
        },
{
    let name: Option<String> = match args.get("process_name") {
        Some(v) => match v.as_text() {
            Some(s) => Some(s.clone()),
            None => None,
        },
        None => None,
    };
    match name {
        None => {
            let msg = String::from_str("Missing required parameter: process_name");
            Err(ToolResult { success: false, data: DataValue::Null, error: Some(msg) })
        },
        Some(n) => {
            if forbidden_process(n.as_str()) {
                let ghost nv = n@;
                let mut msg = String::from_str("Refusing to kill system-critical process: ");
                msg.append(n.as_str());
                let mut ps: Vec<DataPair> = Vec::new();
                ps.push(DataPair { key: "process_name".to_owned(), value: DataValue::Text(n) });
                let data = DataValue::Obj(ps);
                proof {
                    reveal_with_fuel(data_model, 2);
                    assert(data_model(data)->Obj_0 =~~= seq![
                        ("process_name"@, DataVal::Text(nv)),
                    ]);
                }
                Err(ToolResult { success: false, data, error: Some(msg) })
            } else {
                Ok(n)
            }
        },
    }
}

/// The report of a kill that the host carried out.
pub open spec fn kill_report_data(name: Seq<char>, killed: bool, stderr: Seq<char>) -> DataVal {
    DataVal::Obj(
        seq![
            ("process_name"@, DataVal::Text(name)),
            ("killed"@, DataVal::Bool(killed)),
            ("stderr"@, DataVal::Text(trim_spec(stderr))),
        ],
    )
}

/// Assemble the report of a kill the host carried out: success exactly
/// when the signal landed, with the trimmed error stream kept.
pub fn kill_process_report(process_name: &str, killed: bool, stderr: &str) -> (r: ToolResult)
    ensures
        result_model(r) == (ResultModel {
            success: killed,
            data: kill_report_data(process_name@, killed, stderr@),
            error: if killed {
                None
            } else {
                Some("Process not found or could not be killed"@)
            },
        }),
{
    let mut ps: Vec<DataPair> = Vec::new();
    ps.push(
        DataPair { key: "process_name".to_owned(), value: DataValue::Text(process_name.to_owned()) },
    );
    ps.push(DataPair { key: "killed".to_owned(), value: DataValue::Bool(killed) });
    ps.push(DataPair { key: "stderr".to_owned(), value: DataValue::Text(trim_str(stderr)) });
    let data = DataValue::Obj(ps);
    proof {
        reveal_with_fuel(data_model, 2);
        assert(data_model(data)->Obj_0 =~~= kill_report_data(process_name@, killed, stderr@)
            ->Obj_0);
        assert(data_model(data) =~~= kill_report_data(process_name@, killed, stderr@));
    }
    let error = if killed {
        None
    } else {
        Some(String::from_str("Process not found or could not be killed"))
    };
    ToolResult { success: killed, data, error }
}

/// The failure reported when the host could not run the kill command.
pub fn kill_process_run_error(process_name: &str, err: &str) -> (r: ToolResult)
    ensures
        result_model(r) == (ResultModel {
            success: false,
            data: DataVal::Obj(seq![("process_name"@, DataVal::Text(process_name@))]),
            error: Some("Failed to run pkill: "@ + err@),
        }),
{
    let mut msg = String::from_str("Failed to run pkill: ");
    msg.append(err);
    let mut ps: Vec<DataPair> = Vec::new();
    ps.push(
        DataPair { key: "process_name".to_owned(), value: DataValue::Text(process_name.to_owned()) },
    );
    let data = DataValue::Obj(ps);
    proof {
        reveal_with_fuel(data_model, 2);
        assert(data_model(data)->Obj_0 =~~= seq![("process_name"@, DataVal::Text(process_name@))]);
    }
    ToolResult { success: false, data, error: Some(msg) }
}

/// The cache-clearing target taken from the arguments; anything missing or
/// non-textual clears both.
pub open spec fn clear_target_model(args: ArgVal) -> Seq<char> {
    match args {
        ArgVal::Obj(entries) => match val_get(entries, "target"@) {
            Some(v) => match v {
                ArgVal::Text(s) => s,
                _ => "both"@,
            },
            None => "both"@,
        },
        _ => "both"@,
    }
}

/// Read the cache-clearing target from the arguments.
pub fn clear_caches_target(args: &ArgValue) -> (r: String)
    ensures
        r@ == clear_target_model(arg_model(*args)),
{
    match args.get("target") {
        Some(v) => match v.as_text() {
            Some(s) => s.clone(),
            None => String::from_str("both"),
        },
        None => String::from_str("both"),
    }
}

/// The disk caches are in the target.
pub open spec fn wants_disk(target: Seq<char>) -> bool {
    target == "disk"@ || target == "both"@
}

/// The memory caches are in the target.
pub open spec fn wants_memory(target: Seq<char>) -> bool {
    target == "memory"@ || target == "both"@
}

/// The purge succeeded: its output claims neither missing rights nor a
/// denial.
pub open spec fn purge_ok(out: Seq<char>) -> bool {
    !has_substring(out, "requires root"@) && !has_substring(out, "Permission denied"@)
}

/// The cache-clearing report: one group of entries per cleared target,
/// with each command's output kept when it printed any, and the target
/// echoed last.
pub open spec fn clear_caches_data(
    target: Seq<char>,
    disk_output: Option<Seq<char>>,
    memory_output: Option<Seq<char>>,
) -> DataVal {
    let disk_entries: Seq<(Seq<char>, DataVal)> = match disk_output {
        Some(out) => seq![("disk_caches_cleared"@, DataVal::Bool(true))] + (if out.len() > 0 {
            seq![("disk_output"@, DataVal::Text(out))]
        } else {
            Seq::empty()
        }),
        None => Seq::empty(),
    };
    let memory_entries: Seq<(Seq<char>, DataVal)> = match memory_output {
        Some(out) => seq![("memory_purged"@, DataVal::Bool(purge_ok(out)))] + (if out.len()
            > 0 {
            seq![("memory_output"@, DataVal::Text(out))]
        } else {
            Seq::empty()
        }),
        None => Seq::empty(),
    };
    DataVal::Obj(disk_entries + memory_entries + seq![("target"@, DataVal::Text(target))])
}

/// Assemble the cache-clearing report.  The host passes each command's
/// output exactly when the target asked for that command to run.
pub fn clear_caches_report(
    target: &String,
    disk_output: Option<&String>,
    memory_output: Option<&String>,
) -> (r: ToolResult)
    requires
        (disk_output is Some) == wants_disk(target@),
        (memory_output is Some) == wants_memory(target@),
    ensures
        result_model(r) == report_ok(
            clear_caches_data(
                target@,
                match disk_output {
                    Some(s) => Some(s@),
                    None => None,
                },
                match memory_output {
                    Some(s) => Some(s@),
                    None => None,
                },
            ),
        ),
{
    let mut ps: Vec<DataPair> = Vec::new();
    match disk_output {
        Some(out) => {
            ps.push(
                DataPair { key: "disk_caches_cleared".to_owned(), value: DataValue::Bool(true) },
            );
            if !out.as_str().is_empty() {
                ps.push(DataPair { key: "disk_output".to_owned(), value: DataValue::Text(out.clone()) });
            }
        },
        None => {},
    }
    match memory_output {
        Some(out) => {
            let out_cs = chars_vec(out.as_str());
            let purged = !contains_lit(&out_cs, "requires root") && !contains_lit(
                &out_cs,
                "Permission denied",
            );
            ps.push(DataPair { key: "memory_purged".to_owned(), value: DataValue::Bool(purged) });
            if !out.as_str().is_empty() {
                ps.push(
                    DataPair { key: "memory_output".to_owned(), value: DataValue::Text(out.clone()) },
                );
            }
        },
        None => {},
    }
    ps.push(DataPair { key: "target".to_owned(), value: DataValue::Text(target.clone()) });
    let data = DataValue::Obj(ps);
    proof {
        reveal_with_fuel(data_model, 2);
        let g = clear_caches_data(
            target@,
            match disk_output {
                Some(s) => Some(s@),
                None => None,
            },
            match memory_output {
                Some(s) => Some(s@),
                None => None,
            },
        );
        assert(data_model(data)->Obj_0 =~~= g->Obj_0);
        assert(data_model(data) =~~= g);
    }
    ToolResult { success: true, data, error: None }
}

/// The comprehensive checkup: the five component reports side by side.
pub open spec fn full_checkup_data(
    cpu: DataVal,
    memory: DataVal,
    disk: DataVal,
    network: DataVal,
    security: DataVal,
) -> DataVal {
    DataVal::Obj(
        seq![
            ("cpu"@, cpu),
            ("memory"@, memory),
            ("disk"@, disk),
            ("network"@, network),
            ("security"@, security),
        ],
    )
}

/// Assemble the comprehensive checkup from the five component reports.
pub fn run_full_checkup_report(
    cpu: &ToolResult,
    memory: &ToolResult,
    disk: &ToolResult,
    network: &ToolResult,
    security: &ToolResult,
) -> (r: ToolResult)
    ensures
        result_model(r) == report_ok(
            full_checkup_data(
                data_model(cpu.data),
                data_model(memory.data),
                data_model(disk.data),
                data_model(network.data),
                data_model(security.data),
            ),
        ),
{
    let mut ps: Vec<DataPair> = Vec::new();
    ps.push(DataPair { key: "cpu".to_owned(), value: cpu.data.duplicate() });
    ps.push(DataPair { key: "memory".to_owned(), value: memory.data.duplicate() });
    ps.push(DataPair { key: "disk".to_owned(), value: disk.data.duplicate() });
    ps.push(DataPair { key: "network".to_owned(), value: network.data.duplicate() });
    ps.push(DataPair { key: "security".to_owned(), value: security.data.duplicate() });
    let data = DataValue::Obj(ps);
    proof {
        let g = full_checkup_data(
            data_model(cpu.data),
            data_model(memory.data),
            data_model(disk.data),
            data_model(network.data),
            data_model(security.data),
        );
        assert(data_model(data)->Obj_0 =~~= g->Obj_0);
        assert(data_model(data) =~~= g);
    }
    ToolResult { success: true, data, error: None }
}

} // verus!
