//! Commands, and their data as JSON.

use vstd::prelude::*;

use crate::json::{
    add_json, array, distinct_keys, holds_strings, json_value, member_text, member_value,
    member_views, moderate, quote, quoted, shallow, shallow_text, sorted_object, sorted_text, sound,
    sound_items, strings, strings_json, text_of_json, write_json, written_view, Json, JsonView,
};
use crate::text::{opt_str_view, opt_view, string_views};
use crate::textmap::{quoted_values, TextMap};

verus! {

/// A value without parts.
pub enum Scalar {
    /// A truth value.
    Flag(bool),
    /// A whole number.
    Int(i64),
    /// Any number, as JSON text.
    Number(String),
    /// A string.
    Text(String),
}

/// The value behind a `Scalar`.
pub enum ScalarView {
    Flag(bool),
    Int(i64),
    Number(Seq<char>),
    Text(Seq<char>),
}

impl View for Scalar {
    type V = ScalarView;

    open spec fn view(&self) -> ScalarView {
        match self {
            Scalar::Flag(b) => ScalarView::Flag(*b),
            Scalar::Int(n) => ScalarView::Int(*n),
            Scalar::Number(t) => ScalarView::Number(t@),
            Scalar::Text(t) => ScalarView::Text(t@),
        }
    }
}

/// The fields of a record.
pub open spec fn field_views(fields: Seq<(String, Scalar)>) -> Seq<(Seq<char>, ScalarView)> {
    fields.map_values(|f: (String, Scalar)| (f.0@, f.1@))
}

/// A part of a command's data.
pub enum Param {
    /// A value without parts.
    One(Scalar),
    /// Strings.
    Texts(Vec<String>),
    /// Strings by name.
    Table(TextMap),
    /// Records of values without parts.
    Records(Vec<Vec<(String, Scalar)>>),
}

/// The value behind a `Param`.
pub enum ParamView {
    One(ScalarView),
    Texts(Seq<Seq<char>>),
    Table(Seq<(Seq<char>, Seq<char>)>),
    Records(Seq<Seq<(Seq<char>, ScalarView)>>),
}

/// The views of records.
pub open spec fn record_views(records: Seq<Vec<(String, Scalar)>>) -> Seq<
    Seq<(Seq<char>, ScalarView)>,
> {
    records.map_values(|r: Vec<(String, Scalar)>| field_views(r@))
}

impl View for Param {
    type V = ParamView;

    open spec fn view(&self) -> ParamView {
        match self {
            Param::One(s) => ParamView::One(s@),
            Param::Texts(ts) => ParamView::Texts(string_views(ts@)),
            Param::Table(m) => ParamView::Table(m@),
            Param::Records(rs) => ParamView::Records(record_views(rs@)),
        }
    }
}

/// A command's data, part by part.
pub struct Params {
    entries: Vec<(String, Param)>,
}

/// The views of the parts of a command's data.
pub open spec fn param_views(entries: Seq<(String, Param)>) -> Seq<(Seq<char>, ParamView)> {
    entries.map_values(|e: (String, Param)| (e.0@, e.1@))
}

impl View for Params {
    type V = Seq<(Seq<char>, ParamView)>;

    closed spec fn view(&self) -> Seq<(Seq<char>, ParamView)> {
        param_views(self.entries@)
    }
}

/// A part that is a string.
pub open spec fn text_param(text: Seq<char>) -> ParamView {
    ParamView::One(ScalarView::Text(text))
}

/// A part that is a truth value.
pub open spec fn flag_param(flag: bool) -> ParamView {
    ParamView::One(ScalarView::Flag(flag))
}

/// A part that is a whole number.
pub open spec fn int_param(n: i64) -> ParamView {
    ParamView::One(ScalarView::Int(n))
}

/// The part for a string that may be missing.
pub open spec fn opt_text_param(key: Seq<char>, text: Option<Seq<char>>) -> Seq<
    (Seq<char>, ParamView),
> {
    match text {
        Some(t) => seq![(key, text_param(t))],
        None => Seq::empty(),
    }
}

/// The part for a whole number that may be missing.
pub open spec fn opt_int_param(key: Seq<char>, n: Option<i64>) -> Seq<(Seq<char>, ParamView)> {
    match n {
        Some(n) => seq![(key, int_param(n))],
        None => Seq::empty(),
    }
}

/// The part for a number that may be missing.
pub open spec fn opt_number_param(key: Seq<char>, n: Option<Seq<char>>) -> Seq<
    (Seq<char>, ParamView),
> {
    match n {
        Some(t) => seq![(key, ParamView::One(ScalarView::Number(t)))],
        None => Seq::empty(),
    }
}

impl Params {
    /// No data.
    pub fn new() -> (p: Params)
        ensures
            p@ == Seq::<(Seq<char>, ParamView)>::empty(),
    {
        let p = Params { entries: Vec::new() };
        assert(p@ =~= Seq::<(Seq<char>, ParamView)>::empty());
        p
    }

    /// Adds a part.
    pub fn add(&mut self, key: &str, param: Param)
        ensures
            final(self)@ == old(self)@.push((key@, param@)),
    {
        let ghost before = self@;
        let ghost v = param@;
        self.entries.push((key.to_string(), param));
        assert(self@ =~= before.push((key@, v)));
    }

    /// Adds a string.
    pub fn text(&mut self, key: &str, text: &str)
        ensures
            final(self)@ == old(self)@.push((key@, text_param(text@))),
    {
        self.add(key, Param::One(Scalar::Text(text.to_string())));
    }

    /// Adds a truth value.
    pub fn flag(&mut self, key: &str, flag: bool)
        ensures
            final(self)@ == old(self)@.push((key@, flag_param(flag))),
    {
        self.add(key, Param::One(Scalar::Flag(flag)));
    }

    /// Adds a whole number.
    pub fn whole(&mut self, key: &str, n: i64)
        ensures
            final(self)@ == old(self)@.push((key@, int_param(n))),
    {
        self.add(key, Param::One(Scalar::Int(n)));
    }

    /// Adds any number.
    pub fn number(&mut self, key: &str, n: &str)
        ensures
            final(self)@ == old(self)@.push((key@, ParamView::One(ScalarView::Number(n@)))),
    {
        self.add(key, Param::One(Scalar::Number(n.to_string())));
    }

    /// Adds a string, where there is one.
    pub fn opt_text(&mut self, key: &str, text: Option<&str>)
        ensures
            final(self)@ == old(self)@ + opt_text_param(key@, opt_str_view(text)),
    {
        match text {
            Some(t) => self.text(key, t),
            None => {},
        }
    }

    /// Adds a whole number, where there is one.
    pub fn opt_whole(&mut self, key: &str, n: Option<i64>)
        ensures
            final(self)@ == old(self)@ + opt_int_param(key@, n),
    {
        match n {
            Some(n) => self.whole(key, n),
            None => {},
        }
    }

    /// Adds any number, where there is one.
    pub fn opt_number(&mut self, key: &str, n: Option<&str>)
        ensures
            final(self)@ == old(self)@ + opt_number_param(key@, opt_str_view(n)),
    {
        match n {
            Some(n) => self.number(key, n),
            None => {},
        }
    }

    /// The parts.
    pub fn entries(&self) -> (r: &Vec<(String, Param)>)
        ensures
            param_views(r@) == self@,
    {
        &self.entries
    }
}

/// A command: whom it is for, its name and its data.
pub struct Command {
    /// The session that it is for, or the browser itself.
    pub session_id: Option<String>,
    /// Its name.
    pub method: String,
    /// Its data.
    pub params: Params,
}

/// The value behind a `Command`.
pub struct CommandView {
    pub session_id: Option<Seq<char>>,
    pub method: Seq<char>,
    pub params: Seq<(Seq<char>, ParamView)>,
}

impl View for Command {
    type V = CommandView;

    open spec fn view(&self) -> CommandView {
        CommandView {
            session_id: opt_view(self.session_id),
            method: self.method@,
            params: self.params@,
        }
    }
}

/// The results where all are successes, or the first error.
pub open spec fn gathered<A, E>(items: Seq<Result<A, E>>) -> Result<Seq<A>, E>
    decreases items.len(),
{
    if items.len() == 0 {
        Ok(Seq::empty())
    } else {
        match gathered(items.drop_last()) {
            Err(e) => Err(e),
            Ok(front) => match items.last() {
                Ok(a) => Ok(front.push(a)),
                Err(e) => Err(e),
            },
        }
    }
}

proof fn lemma_gathered_err<A, E>(items: Seq<Result<A, E>>, n: int)
    requires
        0 <= n <= items.len(),
        gathered(items.take(n)) is Err,
    ensures
        gathered(items) == gathered(items.take(n)),
    decreases items.len() - n,
{
    if n == items.len() {
        assert(items.take(n) =~= items);
    } else {
        assert(items.take(n + 1).drop_last() =~= items.take(n));
        lemma_gathered_err(items, n + 1);
    }
}

/// The JSON text of a value without parts.
pub open spec fn scalar_json(s: ScalarView) -> Seq<char> {
    match s {
        ScalarView::Flag(b) => text_of_json(JsonView::Bool(b))->Ok_0,
        ScalarView::Int(n) => if n < 0 {
            text_of_json(JsonView::Negative(n))->Ok_0
        } else {
            text_of_json(JsonView::Unsigned(n as u64))->Ok_0
        },
        ScalarView::Number(t) => t,
        ScalarView::Text(t) => quoted(t),
    }
}

/// The members of a record, each as JSON text.
pub open spec fn field_members(fields: Seq<(Seq<char>, ScalarView)>) -> Seq<
    (Seq<char>, Seq<char>),
> {
    fields.map_values(|f: (Seq<char>, ScalarView)| (f.0, scalar_json(f.1)))
}

/// The JSON text of a record.
pub open spec fn record_json(fields: Seq<(Seq<char>, ScalarView)>) -> Result<
    Seq<char>,
    Seq<char>,
> {
    sorted_text(field_members(fields))
}

/// The JSON text of a part.
pub open spec fn param_json(p: ParamView) -> Result<Seq<char>, Seq<char>> {
    match p {
        ParamView::One(s) => Ok(scalar_json(s)),
        ParamView::Texts(ts) => Ok(strings_json(ts)),
        ParamView::Table(entries) => sorted_text(quoted_values(entries)),
        ParamView::Records(rs) => match gathered(
            rs.map_values(|r: Seq<(Seq<char>, ScalarView)>| record_json(r)),
        ) {
            Ok(texts) => text_of_json(JsonView::Array(texts)),
            Err(e) => Err(e),
        },
    }
}

/// The member for a part.
pub open spec fn param_member(p: (Seq<char>, ParamView)) -> Result<
    (Seq<char>, Seq<char>),
    Seq<char>,
> {
    match param_json(p.1) {
        Ok(text) => Ok((p.0, text)),
        Err(e) => Err(e),
    }
}

/// The JSON text of a command's data.
pub open spec fn params_json(params: Seq<(Seq<char>, ParamView)>) -> Result<Seq<char>, Seq<char>> {
    match gathered(params.map_values(|p: (Seq<char>, ParamView)| param_member(p))) {
        Ok(members) => sorted_text(members),
        Err(e) => Err(e),
    }
}

/// A value without parts. What is given as a number is one.
pub open spec fn plain_scalar(s: ScalarView) -> bool {
    s matches ScalarView::Number(t) ==> (json_value(t) matches Some(v) && v.is_number())
}

/// A part in which what is given as a number is one.
pub open spec fn plain_param(p: ParamView) -> bool {
    match p {
        ParamView::One(s) => plain_scalar(s),
        ParamView::Records(rs) => forall|i: int, j: int|
            0 <= i < rs.len() && 0 <= j < rs[i].len() ==> plain_scalar((#[trigger] rs[i][j]).1),
        _ => true,
    }
}

/// Data in which what is given as a number is one.
pub open spec fn plain_params(params: Seq<(Seq<char>, ParamView)>) -> bool {
    forall|i: int| 0 <= i < params.len() ==> plain_param((#[trigger] params[i]).1)
}

/// The JSON value of a value without parts, where what is given as a number is one.
pub open spec fn scalar_value(s: ScalarView) -> JsonView {
    match s {
        ScalarView::Flag(b) => JsonView::Bool(b),
        ScalarView::Int(n) => if n < 0 {
            JsonView::Negative(n)
        } else {
            JsonView::Unsigned(n as u64)
        },
        ScalarView::Number(t) => json_value(t)->0,
        ScalarView::Text(t) => JsonView::Text(t),
    }
}

/// The fields of a record have different names.
pub open spec fn distinct_fields(fields: Seq<(Seq<char>, ScalarView)>) -> bool {
    forall|i: int, j: int|
        0 <= i < j < fields.len() ==> #[trigger] fields[i].0 != #[trigger] fields[j].0
}

/// A field has the name `key`.
pub open spec fn names_field(fields: Seq<(Seq<char>, ScalarView)>, key: Seq<char>) -> bool {
    exists|j: int| 0 <= j < fields.len() && (#[trigger] fields[j]).0 == key
}

/// A part has the name `key`.
pub open spec fn names_param(params: Seq<(Seq<char>, ParamView)>, key: Seq<char>) -> bool {
    exists|j: int| 0 <= j < params.len() && (#[trigger] params[j]).0 == key
}

/// `text` is JSON that holds each field of a record, where their names differ, and
/// nothing else.
pub open spec fn holds_record(text: Seq<char>, fields: Seq<(Seq<char>, ScalarView)>) -> bool {
    &&& json_value(text) matches Some(back)
    &&& forall|key: Seq<char>| (#[trigger] back.member(key)) is Some ==> names_field(fields, key)
    &&& distinct_fields(fields) ==> forall|j: int|
        0 <= j < fields.len() ==> member_value(back, (#[trigger] fields[j]).0) == Some(
            scalar_value(fields[j].1),
        )
}

/// `value` is what a part stands for, read from JSON.
pub open spec fn holds_param(value: Option<JsonView>, p: ParamView) -> bool {
    match p {
        ParamView::One(s) => value == Some(scalar_value(s)),
        ParamView::Texts(ts) => holds_strings(value, ts),
        ParamView::Table(entries) => {
            &&& value matches Some(back)
            &&& distinct_keys(entries) ==> forall|i: int|
                0 <= i < entries.len() ==> member_text(back, (#[trigger] entries[i]).0) == Some(
                    entries[i].1,
                )
        },
        ParamView::Records(rs) => {
            &&& value matches Some(JsonView::Array(items))
            &&& items.len() == rs.len()
            &&& forall|i: int| 0 <= i < items.len() ==> holds_record(#[trigger] items[i], rs[i])
        },
    }
}

/// The parts of a command's data have different names.
pub open spec fn distinct_params(params: Seq<(Seq<char>, ParamView)>) -> bool {
    forall|i: int, j: int|
        0 <= i < j < params.len() ==> #[trigger] params[i].0 != #[trigger] params[j].0
}

/// `value` is a JSON value that holds each part of a command's data, and nothing
/// else.
pub open spec fn holds_params(
    value: Option<JsonView>,
    params: Seq<(Seq<char>, ParamView)>,
) -> bool {
    &&& value matches Some(back)
    &&& forall|key: Seq<char>| (#[trigger] back.member(key)) is Some ==> names_param(params, key)
    &&& forall|i: int|
        0 <= i < params.len() ==> holds_param(
            member_value(back, (#[trigger] params[i]).0),
            params[i].1,
        )
}

fn scalar_text(s: &Scalar) -> (out: String)
    ensures
        out@ == scalar_json(s@),
        plain_scalar(s@) ==> shallow(scalar_value(s@), 0) && json_value(out@) == Some(
            scalar_value(s@),
        ),
{
    let json = match s {
        Scalar::Flag(b) => Json::Bool(*b),
        Scalar::Int(n) => if *n < 0 {
            Json::Negative(*n)
        } else {
            Json::Unsigned(*n as u64)
        },
        Scalar::Number(t) => {
            return t.clone();
        },
        Scalar::Text(t) => {
            return quote(t.as_str());
        },
    };
    match write_json(&json) {
        Ok(text) => text,
        Err(message) => message,
    }
}

fn record_text(fields: &Vec<(String, Scalar)>) -> (r: Result<String, String>)
    ensures
        written_view(r) == record_json(field_views(fields@)),
        (forall|j: int|
            0 <= j < fields@.len() ==> plain_scalar((#[trigger] field_views(fields@)[j]).1)) ==> (
        r matches Ok(text) && shallow_text(text@, 1) && holds_record(text@, field_views(fields@))),
{
    let ghost all = field_views(fields@);
    let mut members: Vec<(String, String)> = Vec::new();
    let mut i: usize = 0;
    assert(member_views(members@) =~= field_members(all.take(0)));
    while i < fields.len()
        invariant
            i <= fields@.len(),
            all == field_views(fields@),
            member_views(members@) == field_members(all.take(i as int)),
            forall|j: int|
                0 <= j < i && plain_scalar((#[trigger] all[j]).1) ==> shallow(
                    scalar_value(all[j].1),
                    0,
                ) && json_value(scalar_json(all[j].1)) == Some(scalar_value(all[j].1)),
        decreases fields@.len() - i,
    {
        let field = &fields[i];
        assert(all[i as int] == (field.0@, field.1@));
        let text = scalar_text(&field.1);
        let ghost t = text@;
        add_json(&mut members, field.0.as_str(), text);
        assert(field_members(all.take(i + 1)) =~= field_members(all.take(i as int)).push(
            (field.0@, t),
        ));
        i = i + 1;
    }
    assert(all.take(i as int) =~= all);
    proof {
        if forall|j: int| 0 <= j < fields@.len() ==> plain_scalar((#[trigger] all[j]).1) {
            assert forall|j: int| 0 <= j < member_views(members@).len() implies (json_value(
                (#[trigger] member_views(members@)[j]).1,
            ) matches Some(v) && (v.exact() || shallow(v, 0))) by {
                assert(plain_scalar(all[j].1));
            }
            assert(sound(member_views(members@), 0));
        }
    }
    let ghost written = member_views(members@);
    let r = sorted_object(&members);
    proof {
        if forall|j: int| 0 <= j < fields@.len() ==> plain_scalar((#[trigger] all[j]).1) {
            let text = r->Ok_0@;
            assert forall|key: Seq<char>| (#[trigger] json_value(text)->0.member(
                key,
            )) is Some implies names_field(all, key) by {
                let j = choose|j: int| 0 <= j < written.len() && (#[trigger] written[j]).0 == key;
                assert(all[j].0 == key);
            }
            if distinct_fields(all) {
                assert forall|i: int, j: int| 0 <= i < j < written.len() implies (
                #[trigger] written[i].0) != (#[trigger] written[j].0) by {
                    assert(all[i].0 != all[j].0);
                }
                assert(distinct_keys(written));
                assert forall|j: int| 0 <= j < all.len() implies member_value(
                    json_value(text)->0,
                    (#[trigger] all[j]).0,
                ) == Some(scalar_value(all[j].1)) by {
                    assert(written[j] == (all[j].0, scalar_json(all[j].1)));
                }
            }
        }
    }
    r
}

fn records_text(records: &Vec<Vec<(String, Scalar)>>) -> (r: Result<String, String>)
    ensures
        written_view(r) == param_json(ParamView::Records(record_views(records@))),
        plain_param(ParamView::Records(record_views(records@))) ==> (r matches Ok(text)
            && shallow_text(text@, 2) && holds_param(
            json_value(text@),
            ParamView::Records(record_views(records@)),
        )),
{
    let ghost all = record_views(records@);
    let ghost results = all.map_values(|r: Seq<(Seq<char>, ScalarView)>| record_json(r));
    let ghost plain = plain_param(ParamView::Records(all));
    let mut items: Vec<String> = Vec::new();
    assert(gathered(results.take(0)) == Ok::<Seq<Seq<char>>, Seq<char>>(string_views(items@))) by {
        assert(results.take(0).len() == 0);
        assert(string_views(items@) =~= Seq::empty());
    }
    while items.len() < records.len()
        invariant
            items.len() <= records.len(),
            all == record_views(records@),
            plain == plain_param(ParamView::Records(all)),
            results == all.map_values(|r: Seq<(Seq<char>, ScalarView)>| record_json(r)),
            gathered(results.take(items.len() as int)) == Ok::<Seq<Seq<char>>, Seq<char>>(
                string_views(items@),
            ),
            plain ==> forall|j: int|
                0 <= j < items.len() ==> shallow_text((#[trigger] items@[j])@, 1) && holds_record(
                    items@[j]@,
                    all[j],
                ),
        decreases records.len() - items.len(),
    {
        let ghost n = items.len() as int;
        let ghost before = items@;
        let record = &records[items.len()];
        assert(all[n] == field_views(record@));
        assert(results.take(n + 1).drop_last() =~= results.take(n));
        assert(results.take(n + 1).last() == record_json(all[n]));
        proof {
            if plain {
                assert forall|j: int| 0 <= j < record@.len() implies plain_scalar(
                    (#[trigger] field_views(record@)[j]).1,
                ) by {
                    assert(plain_scalar(all[n][j].1));
                }
            }
        }
        match record_text(record) {
            Ok(text) => {
                items.push(text);
                assert(string_views(items@) =~= string_views(before).push(text@));
            },
            Err(message) => {
                proof {
                    lemma_gathered_err(results, n + 1);
                }
                return Err(message);
            },
        }
    }
    assert(results.take(items.len() as int) =~= results);
    proof {
        if plain {
            assert(sound_items(string_views(items@), 1));
        }
    }
    array(items)
}

fn param_text(p: &Param) -> (r: Result<String, String>)
    ensures
        written_view(r) == param_json(p@),
        plain_param(p@) ==> (r matches Ok(text) && (json_value(text@) matches Some(v) && (v.exact()
            || shallow(v, 2))) && holds_param(json_value(text@), p@)),
{
    match p {
        Param::One(s) => Ok(scalar_text(s)),
        Param::Texts(ts) => {
            let text = strings(ts);
            proof {
                lemma_deeper(json_value(text@)->0, 1);
            }
            Ok(text)
        },
        Param::Table(m) => {
            let text = m.to_json();
            proof {
                lemma_deeper(json_value(text@)->0, 1);
            }
            Ok(text)
        },
        Param::Records(rs) => records_text(rs),
    }
}

/// What is nested no deeper than `depth` is nested no deeper than one more.
proof fn lemma_deeper(json: JsonView, depth: nat)
    requires
        shallow(json, depth),
    ensures
        shallow(json, depth + 1),
    decreases depth,
{
    if !json.exact() {
        match json {
            JsonView::Array(items) => {
                assert forall|i: int| 0 <= i < items.len() implies (json_value(#[trigger] items[i])
                    matches Some(v) && shallow(v, depth)) by {
                    lemma_deeper(json_value(items[i])->0, (depth - 1) as nat);
                }
            },
            JsonView::Object(members) => {
                assert forall|i: int| 0 <= i < members.len() implies (json_value(
                    (#[trigger] members[i]).1,
                ) matches Some(v) && shallow(v, depth)) by {
                    lemma_deeper(json_value(members[i].1)->0, (depth - 1) as nat);
                }
            },
            _ => {},
        }
    }
}

impl Command {
    /// The JSON text of the command's data. Only what is given as a number and is
    /// none can keep there from being one.
    pub fn params_text(&self) -> (r: Result<String, String>)
        ensures
            written_view(r) == params_json(self@.params),
            plain_params(self@.params) ==> (r matches Ok(text) && shallow_text(text@, 3) && (
            distinct_params(self@.params) ==> holds_params(json_value(text@), self@.params))),
    {
        let entries = self.params.entries();
        let ghost all = self@.params;
        let ghost results = all.map_values(|p: (Seq<char>, ParamView)| param_member(p));
        let ghost plain = plain_params(all);
        let mut members: Vec<(String, String)> = Vec::new();
        assert(gathered(results.take(0)) == Ok::<Seq<(Seq<char>, Seq<char>)>, Seq<char>>(
            member_views(members@),
        )) by {
            assert(results.take(0).len() == 0);
            assert(member_views(members@) =~= Seq::empty());
        }
        while members.len() < entries.len()
            invariant
                members.len() <= entries.len(),
                all == self@.params,
                param_views(entries@) == all,
                all.len() == entries@.len(),
                plain == plain_params(all),
                results == all.map_values(|p: (Seq<char>, ParamView)| param_member(p)),
                gathered(results.take(members.len() as int)) == Ok::<
                    Seq<(Seq<char>, Seq<char>)>,
                    Seq<char>,
                >(member_views(members@)),
                plain ==> sound(member_views(members@), 2),
                forall|j: int|
                    0 <= j < members.len() ==> (#[trigger] member_views(members@)[j]).0 == all[j].0,
                plain ==> forall|j: int|
                    0 <= j < members.len() ==> holds_param(
                        json_value((#[trigger] member_views(members@)[j]).1),
                        all[j].1,
                    ),
            decreases entries.len() - members.len(),
        {
            let ghost n = members.len() as int;
            let ghost before = member_views(members@);
            let entry = &entries[members.len()];
            assert(all[n] == (entry.0@, entry.1@));
            assert(results.take(n + 1).drop_last() =~= results.take(n));
            assert(results.take(n + 1).last() == param_member(all[n]));
            match param_text(&entry.1) {
                Ok(text) => {
                    let ghost t = text@;
                    members.push((entry.0.clone(), text));
                    assert(member_views(members@) =~= before.push((entry.0@, t)));
                },
                Err(message) => {
                    proof {
                        lemma_gathered_err(results, n + 1);
                    }
                    return Err(message);
                },
            }
        }
        assert(results.take(members.len() as int) =~= results);
        let ghost written = member_views(members@);
        let r = sorted_object(&members);
        proof {
            if plain && distinct_params(all) {
                let text = r->Ok_0@;
                assert forall|key: Seq<char>| (#[trigger] json_value(text)->0.member(
                    key,
                )) is Some implies names_param(all, key) by {
                    let j = choose|j: int|
                        0 <= j < written.len() && (#[trigger] written[j]).0 == key;
                    assert(all[j].0 == key);
                }
                assert forall|i: int, j: int| 0 <= i < j < written.len() implies (
                #[trigger] written[i].0) != (#[trigger] written[j].0) by {
                    assert(all[i].0 != all[j].0);
                }
                assert(distinct_keys(written));
                assert forall|i: int| 0 <= i < all.len() implies holds_param(
                    member_value(json_value(text)->0, (#[trigger] all[i]).0),
                    all[i].1,
                ) by {
                    assert(moderate(json_value(written[i].1)->0));
                }
            }
        }
        r
    }
}

/// What stands under `key`, looked for from the end.
pub open spec fn named<V>(parts: Seq<(Seq<char>, V)>, key: Seq<char>) -> Option<V>
    decreases parts.len(),
{
    if parts.len() == 0 {
        None
    } else if parts.last().0 == key {
        Some(parts.last().1)
    } else {
        named(parts.drop_last(), key)
    }
}

/// No two parts have the same name.
pub open spec fn named_apart<V>(parts: Seq<(Seq<char>, V)>) -> bool {
    forall|i: int, j: int|
        0 <= i < j < parts.len() ==> #[trigger] parts[i].0 != #[trigger] parts[j].0
}

/// What is found under a key stands there; where nothing is found, no part has the
/// key.
pub proof fn lemma_named<V>(parts: Seq<(Seq<char>, V)>, key: Seq<char>)
    ensures
        match named(parts, key) {
            Some(v) => exists|j: int|
                0 <= j < parts.len() && #[trigger] parts[j] == (key, v),
            None => forall|j: int| 0 <= j < parts.len() ==> (#[trigger] parts[j]).0 != key,
        },
    decreases parts.len(),
{
    if parts.len() > 0 {
        if parts.last().0 == key {
            assert(parts[parts.len() - 1] == (key, parts.last().1));
        } else {
            let front = parts.drop_last();
            lemma_named(front, key);
            match named(front, key) {
                Some(v) => {
                    let j = choose|j: int|
                        0 <= j < front.len() && #[trigger] front[j] == (key, v);
                    assert(parts[j] == (key, v));
                },
                None => {
                    assert forall|j: int| 0 <= j < parts.len() implies (#[trigger] parts[j]).0
                        != key by {
                        if j < front.len() {
                            assert(front[j].0 != key);
                        }
                    }
                },
            }
        }
    }
}

/// One part more, or none, changes only what stands under its own name.
pub proof fn lemma_named_add<V>(parts: Seq<(Seq<char>, V)>, more: Seq<(Seq<char>, V)>)
    requires
        more.len() <= 1,
        named_apart(parts),
        more.len() == 1 ==> named(parts, more[0].0) is None,
    ensures
        named_apart(parts + more),
        forall|key: Seq<char>| #[trigger]
            named(parts + more, key) == (if more.len() == 1 && more[0].0 == key {
                Some(more[0].1)
            } else {
                named(parts, key)
            }),
{
    let all = parts + more;
    if more.len() == 0 {
        assert(all =~= parts);
    } else {
        assert(all.drop_last() =~= parts);
        assert(all.last() == more[0]);
        lemma_named(parts, more[0].0);
        assert forall|i: int, j: int| 0 <= i < j < all.len() implies #[trigger] all[i].0
            != #[trigger] all[j].0 by {
            assert(all[i] == parts[i]);
            if j < parts.len() {
                assert(all[j] == parts[j]);
            }
        }
    }
}

/// A part that may be missing.
pub open spec fn maybe<V>(piece: (Seq<char>, Option<V>)) -> Seq<(Seq<char>, V)> {
    match piece.1 {
        Some(v) => seq![(piece.0, v)],
        None => Seq::empty(),
    }
}

/// The first `n` of the pieces, without those that are missing.
pub open spec fn given<V>(pieces: Seq<(Seq<char>, Option<V>)>, n: nat) -> Seq<(Seq<char>, V)>
    decreases n,
{
    if n == 0 {
        Seq::empty()
    } else {
        given(pieces, (n - 1) as nat) + maybe(pieces[n - 1])
    }
}

/// No two pieces have the same name.
pub open spec fn pieces_apart<V>(pieces: Seq<(Seq<char>, Option<V>)>) -> bool {
    forall|i: int, j: int|
        0 <= i < j < pieces.len() ==> #[trigger] pieces[i].0 != #[trigger] pieces[j].0
}

/// Under its name stands each piece that is given, and nothing where it is missing.
pub proof fn lemma_given<V>(pieces: Seq<(Seq<char>, Option<V>)>, n: nat)
    requires
        pieces_apart(pieces),
        n <= pieces.len(),
    ensures
        named_apart(given(pieces, n)),
        forall|i: int|
            0 <= i < n ==> named(given(pieces, n), (#[trigger] pieces[i]).0) == pieces[i].1,
        forall|i: int|
            n <= i < pieces.len() ==> named(given(pieces, n), (#[trigger] pieces[i]).0) is None,
    decreases n,
{
    if n > 0 {
        let before = given(pieces, (n - 1) as nat);
        lemma_given(pieces, (n - 1) as nat);
        assert(named(before, pieces[n - 1].0) is None);
        lemma_named_add(before, maybe(pieces[n - 1]));
        assert forall|i: int| 0 <= i < n implies named(
            given(pieces, n),
            (#[trigger] pieces[i]).0,
        ) == pieces[i].1 by {
            if i < n - 1 {
                assert(pieces[i].0 != pieces[n - 1].0);
            }
        }
        assert forall|i: int| n <= i < pieces.len() implies named(
            given(pieces, n),
            (#[trigger] pieces[i]).0,
        ) is None by {
            assert(pieces[n - 1].0 != pieces[i].0);
        }
    }
}

/// What is read from JSON under a key is what stands in the record under it.
pub proof fn lemma_record_told(text: Seq<char>, fields: Seq<(Seq<char>, ScalarView)>)
    requires
        holds_record(text, fields),
        named_apart(fields),
    ensures
        json_value(text) matches Some(back) && forall|key: Seq<char>|
            match #[trigger] named(fields, key) {
                Some(v) => member_value(back, key) == Some(scalar_value(v)),
                None => back.member(key) is None,
            },
{
    let back = json_value(text)->0;
    assert(distinct_fields(fields));
    assert forall|key: Seq<char>|
        match #[trigger] named(fields, key) {
            Some(v) => member_value(back, key) == Some(scalar_value(v)),
            None => back.member(key) is None,
        } by {
        lemma_named(fields, key);
    }
}

/// What is read from JSON under a key is what stands in a command's data under it.
pub proof fn lemma_params_told(value: Option<JsonView>, params: Seq<(Seq<char>, ParamView)>)
    requires
        holds_params(value, params),
    ensures
        value matches Some(back) && forall|key: Seq<char>|
            match #[trigger] named(params, key) {
                Some(p) => holds_param(member_value(back, key), p),
                None => back.member(key) is None,
            },
{
    let back = value->0;
    assert forall|key: Seq<char>|
        match #[trigger] named(params, key) {
            Some(p) => holds_param(member_value(back, key), p),
            None => back.member(key) is None,
        } by {
        lemma_named(params, key);
    }
}

} // verus!
