//! CSV import into the channel library.
//!
//! The schema is detected by the header names, capitals or not:
//!   - satcom:    `Downlink`, `Uplink`, `Name`
//!   - ham_full:  `Receive Frequency`, `Transmit Frequency`, `Name`, and
//!     optionally `Operating Mode`, `Step`, `CTCSS`
//!   - canonical: `name`, `rx_mhz`, `tx_mhz`, and optionally `mode`,
//!     `step_khz`, `notes`, `ctcss_hz`
//!
//! Reading a text gives rows whose numbers are still texts. Once their values
//! are known, the rows become channels. Rows outside the radio's bands are
//! imported too: the library is a station-wide reference.
use vstd::prelude::*;
use crate::channels::{db_refusal, NewChannelView, OwnedNewChannel};
use crate::http::{Refusal, RefusalView, INTERNAL_SERVER_ERROR};
use crate::single::{channel_tone, is_channel_tone, Single};
use crate::text::{
    append_decimal, ascii_lower, contains_part, debug_string, debug_text, decimal, eq_ignore_case, has_part, join,
    leading_number, lowercase, number_prefix, opt_view, str_eq, to_lower, trimmed, views,
    without_commas,
};

verus! {

// ---------- The csv reader ----------

/// A record, by the views of its fields; or why there is none, as a text.
pub open spec fn record_view(r: Result<Vec<String>, String>) -> Result<
    Seq<Seq<char>>,
    Seq<char>,
> {
    match r {
        Ok(fields) => Ok(views(fields@)),
        Err(e) => Err(e@),
    }
}

/// A list of records, by view.
pub open spec fn records_view(v: Seq<Result<Vec<String>, String>>) -> Seq<
    Result<Seq<Seq<char>>, Seq<char>>,
> {
    v.map_values(|r: Result<Vec<String>, String>| record_view(r))
}

/// What the csv reader takes as the header record of a text.
pub uninterp spec fn csv_header_record(body: Seq<char>) -> Result<Seq<Seq<char>>, Seq<char>>;

/// `csv::Reader::headers`, on a reader that takes the first record as the
/// headers, accepts records of any length and trims headers and fields: the
/// fields of the first record, or the error's text. How a text falls into
/// records and fields is the reader's business.
#[verifier::external_body]
fn csv_headers(body: &str) -> (r: Result<Vec<String>, String>)
    ensures
        record_view(r) == csv_header_record(body@),
{
    let mut rdr = csv::ReaderBuilder::new()
        .has_headers(true)
        .flexible(true)
        .trim(csv::Trim::All)
        .from_reader(body.as_bytes());
    match rdr.headers() {
        Ok(h) => Ok(h.iter().map(|f| f.to_string()).collect()),
        Err(e) => Err(e.to_string()),
    }
}

/// What the csv reader takes as the records behind the header record.
pub uninterp spec fn csv_data_records(body: Seq<char>) -> Seq<
    Result<Seq<Seq<char>>, Seq<char>>,
>;

/// `csv::Reader::records`, on a reader set up likewise: every record but the
/// first, in order, each by its fields or by its error's text.
#[verifier::external_body]
fn csv_records(body: &str) -> (r: Vec<Result<Vec<String>, String>>)
    ensures
        records_view(r@) == csv_data_records(body@),
{
    let mut rdr = csv::ReaderBuilder::new()
        .has_headers(true)
        .flexible(true)
        .trim(csv::Trim::All)
        .from_reader(body.as_bytes());
    rdr.records()
        .map(|rec| match rec {
            Ok(rec) => Ok(rec.iter().map(|f| f.to_string()).collect()),
            Err(e) => Err(e.to_string()),
        })
        .collect()
}

// ---------- Columns ----------

#[derive(Debug, Clone, Copy, PartialEq, Eq, Structural)]
pub enum Profile {
    Satcom,
    HamFull,
    Canonical,
}

impl Profile {
    pub open spec fn text(self) -> Seq<char> {
        match self {
            Profile::Satcom => "satcom"@,
            Profile::HamFull => "ham_full"@,
            Profile::Canonical => "canonical"@,
        }
    }

    pub fn as_str(&self) -> (r: &'static str)
        ensures
            r@ == self.text(),
    {
        match self {
            Profile::Satcom => "satcom",
            Profile::HamFull => "ham_full",
            Profile::Canonical => "canonical",
        }
    }
}

/// The column whose header is `key` in lower case; the last one where there
/// are several.
pub open spec fn column(headers: Seq<Seq<char>>, key: Seq<char>) -> Option<nat>
    decreases headers.len(),
{
    if headers.len() == 0 {
        None
    } else if lowercase(headers.last()) == key {
        Some((headers.len() - 1) as nat)
    } else {
        column(headers.drop_last(), key)
    }
}

/// The first of two columns that is there.
pub open spec fn either(a: Option<nat>, b: Option<nat>) -> Option<nat> {
    match a {
        Some(i) => Some(i),
        None => b,
    }
}

/// Where the columns of a schema are.
#[verifier::ext_equal]
pub struct ColumnsView {
    pub profile: Profile,
    pub rx: nat,
    pub tx: nat,
    pub name: nat,
    pub mode: Option<nat>,
    pub step: Option<nat>,
    pub notes: Option<nat>,
    pub ctcss: Option<nat>,
}

/// The satcom schema's columns.
pub open spec fn satcom_columns(h: Seq<Seq<char>>) -> Option<ColumnsView> {
    match (column(h, "downlink"@), column(h, "uplink"@), column(h, "name"@)) {
        (Some(rx), Some(tx), Some(name)) => Some(
            ColumnsView {
                profile: Profile::Satcom,
                rx,
                tx,
                name,
                mode: None,
                step: either(column(h, "bandwidth khz"@), column(h, "step"@)),
                notes: either(column(h, "comment"@), column(h, "notes"@)),
                ctcss: either(column(h, "ctcss"@), column(h, "tone"@)),
            },
        ),
        _ => None,
    }
}

/// The ham_full schema's columns.
pub open spec fn ham_columns(h: Seq<Seq<char>>) -> Option<ColumnsView> {
    match (
        either(column(h, "receive frequency"@), column(h, "rx frequency"@)),
        either(column(h, "transmit frequency"@), column(h, "tx frequency"@)),
        column(h, "name"@),
    ) {
        (Some(rx), Some(tx), Some(name)) => Some(
            ColumnsView {
                profile: Profile::HamFull,
                rx,
                tx,
                name,
                mode: either(column(h, "operating mode"@), column(h, "mode"@)),
                step: column(h, "step"@),
                notes: either(column(h, "comment"@), column(h, "notes"@)),
                ctcss: either(column(h, "ctcss"@), column(h, "tone"@)),
            },
        ),
        _ => None,
    }
}

/// The canonical schema's columns.
pub open spec fn canonical_columns(h: Seq<Seq<char>>) -> Option<ColumnsView> {
    match (
        either(column(h, "rx_mhz"@), column(h, "rx"@)),
        either(column(h, "tx_mhz"@), column(h, "tx"@)),
        column(h, "name"@),
    ) {
        (Some(rx), Some(tx), Some(name)) => Some(
            ColumnsView {
                profile: Profile::Canonical,
                rx,
                tx,
                name,
                mode: column(h, "mode"@),
                step: either(column(h, "step_khz"@), column(h, "step"@)),
                notes: either(column(h, "notes"@), column(h, "comment"@)),
                ctcss: either(
                    column(h, "ctcss_hz"@),
                    either(column(h, "ctcss"@), column(h, "tone"@)),
                ),
            },
        ),
        _ => None,
    }
}

/// The columns of the first schema whose headers are all there.
pub open spec fn columns(h: Seq<Seq<char>>) -> Option<ColumnsView> {
    match satcom_columns(h) {
        Some(c) => Some(c),
        None => match ham_columns(h) {
            Some(c) => Some(c),
            None => canonical_columns(h),
        },
    }
}

/// The complaint about headers that fit no schema.
pub open spec fn no_profile_text(h: Seq<Seq<char>>) -> Seq<char> {
    "could not auto-detect CSV profile; headers were: ["@ + join(
        h.map_values(|s: Seq<char>| debug_text(s)),
        ", "@,
    )
        + "]. Supported: satcom (Downlink/Uplink/Name), ham_full (Receive Frequency/Transmit Frequency/Name), canonical (name/rx_mhz/tx_mhz)"@
}

/// Where the columns of a schema are.
struct Columns {
    profile: Profile,
    rx: usize,
    tx: usize,
    name: usize,
    mode: Option<usize>,
    step: Option<usize>,
    notes: Option<usize>,
    ctcss: Option<usize>,
}

/// An optional column number, as a natural number.
pub open spec fn col(i: Option<usize>) -> Option<nat> {
    match i {
        Some(n) => Some(n as nat),
        None => None,
    }
}

impl View for Columns {
    type V = ColumnsView;

    closed spec fn view(&self) -> ColumnsView {
        ColumnsView {
            profile: self.profile,
            rx: self.rx as nat,
            tx: self.tx as nat,
            name: self.name as nat,
            mode: col(self.mode),
            step: col(self.step),
            notes: col(self.notes),
            ctcss: col(self.ctcss),
        }
    }
}

fn find_column(headers: &Vec<String>, key: &str) -> (r: Option<usize>)
    ensures
        col(r) == column(views(headers@), key@),
{
    let ghost h = views(headers@);
    let mut i: usize = headers.len();
    assert(h.take(i as int) =~= h);
    while i > 0
        invariant
            i <= headers.len(),
            h == views(headers@),
            column(h, key@) == column(h.take(i as int), key@),
        decreases i,
    {
        proof {
            assert(h.take(i as int).last() == headers@[i - 1]@);
            assert(h.take(i as int).drop_last() =~= h.take(i - 1));
        }
        if str_eq(to_lower(headers[i - 1].as_str()).as_str(), key) {
            return Some(i - 1);
        }
        i = i - 1;
    }
    None
}

fn first_of(a: Option<usize>, b: Option<usize>) -> (r: Option<usize>)
    ensures
        col(r) == either(col(a), col(b)),
{
    match a {
        Some(i) => Some(i),
        None => b,
    }
}

fn find_satcom(h: &Vec<String>) -> (r: Option<Columns>)
    ensures
        match r {
            Some(c) => satcom_columns(views(h@)) == Some(c@),
            None => satcom_columns(views(h@)) is None,
        },
{
    match (find_column(h, "downlink"), find_column(h, "uplink"), find_column(h, "name")) {
        (Some(rx), Some(tx), Some(name)) => Some(
            Columns {
                profile: Profile::Satcom,
                rx,
                tx,
                name,
                mode: None,
                step: first_of(find_column(h, "bandwidth khz"), find_column(h, "step")),
                notes: first_of(find_column(h, "comment"), find_column(h, "notes")),
                ctcss: first_of(find_column(h, "ctcss"), find_column(h, "tone")),
            },
        ),
        _ => None,
    }
}

fn find_ham(h: &Vec<String>) -> (r: Option<Columns>)
    ensures
        match r {
            Some(c) => ham_columns(views(h@)) == Some(c@),
            None => ham_columns(views(h@)) is None,
        },
{
    match (
        first_of(find_column(h, "receive frequency"), find_column(h, "rx frequency")),
        first_of(find_column(h, "transmit frequency"), find_column(h, "tx frequency")),
        find_column(h, "name"),
    ) {
        (Some(rx), Some(tx), Some(name)) => Some(
            Columns {
                profile: Profile::HamFull,
                rx,
                tx,
                name,
                mode: first_of(find_column(h, "operating mode"), find_column(h, "mode")),
                step: find_column(h, "step"),
                notes: first_of(find_column(h, "comment"), find_column(h, "notes")),
                ctcss: first_of(find_column(h, "ctcss"), find_column(h, "tone")),
            },
        ),
        _ => None,
    }
}

fn find_canonical(h: &Vec<String>) -> (r: Option<Columns>)
    ensures
        match r {
            Some(c) => canonical_columns(views(h@)) == Some(c@),
            None => canonical_columns(views(h@)) is None,
        },
{
    match (
        first_of(find_column(h, "rx_mhz"), find_column(h, "rx")),
        first_of(find_column(h, "tx_mhz"), find_column(h, "tx")),
        find_column(h, "name"),
    ) {
        (Some(rx), Some(tx), Some(name)) => Some(
            Columns {
                profile: Profile::Canonical,
                rx,
                tx,
                name,
                mode: find_column(h, "mode"),
                step: first_of(find_column(h, "step_khz"), find_column(h, "step")),
                notes: first_of(find_column(h, "notes"), find_column(h, "comment")),
                ctcss: first_of(
                    find_column(h, "ctcss_hz"),
                    first_of(find_column(h, "ctcss"), find_column(h, "tone")),
                ),
            },
        ),
        _ => None,
    }
}

fn find_columns(h: &Vec<String>) -> (r: Option<Columns>)
    ensures
        match r {
            Some(c) => columns(views(h@)) == Some(c@),
            None => columns(views(h@)) is None,
        },
{
    match find_satcom(h) {
        Some(c) => Some(c),
        None => match find_ham(h) {
            Some(c) => Some(c),
            None => find_canonical(h),
        },
    }
}

fn no_profile(headers: &Vec<String>) -> (r: String)
    ensures
        r@ == no_profile_text(views(headers@)),
{
    let ghost parts = views(headers@).map_values(|s: Seq<char>| debug_text(s));
    let mut out = String::new();
    out.append("could not auto-detect CSV profile; headers were: [");
    let ghost start = out@;
    let mut i: usize = 0;
    while i < headers.len()
        invariant
            i <= headers.len(),
            parts == views(headers@).map_values(|s: Seq<char>| debug_text(s)),
            out@ == start + join(parts.take(i as int), ", "@),
        decreases headers.len() - i,
    {
        if i > 0 {
            out.append(", ");
        }
        out.append(debug_string(headers[i].as_str()).as_str());
        proof {
            assert(parts.take(i + 1).drop_last() =~= parts.take(i as int));
            assert(parts.take(i + 1).last() == debug_text(headers@[i as int]@));
        }
        i = i + 1;
    }
    proof {
        assert(parts.take(i as int) =~= parts);
    }
    out.append(
        "]. Supported: satcom (Downlink/Uplink/Name), ham_full (Receive Frequency/Transmit Frequency/Name), canonical (name/rx_mhz/tx_mhz)",
    );
    out
}

// ---------- Rows ----------

/// A named row, its numbers still texts.
#[derive(Debug)]
pub struct CsvRow {
    pub name: String,
    pub rx: String,
    pub tx: String,
    pub mode: Option<String>,
    pub step: Option<String>,
    pub notes: Option<String>,
    pub ctcss: Option<String>,
}

/// What a [`CsvRow`] stands for.
#[verifier::ext_equal]
pub struct RowView {
    pub name: Seq<char>,
    pub rx: Seq<char>,
    pub tx: Seq<char>,
    pub mode: Option<Seq<char>>,
    pub step: Option<Seq<char>>,
    pub notes: Option<Seq<char>>,
    pub ctcss: Option<Seq<char>>,
}

impl View for CsvRow {
    type V = RowView;

    open spec fn view(&self) -> RowView {
        RowView {
            name: self.name@,
            rx: self.rx@,
            tx: self.tx@,
            mode: opt_view(self.mode),
            step: opt_view(self.step),
            notes: opt_view(self.notes),
            ctcss: opt_view(self.ctcss),
        }
    }
}

/// A row, or a complaint about one that could not be read.
#[derive(Debug)]
pub enum CsvEntry {
    Row(CsvRow),
    Unreadable(String),
}

/// What a [`CsvEntry`] stands for.
#[verifier::ext_equal]
pub enum EntryView {
    Row(RowView),
    Unreadable(Seq<char>),
}

impl View for CsvEntry {
    type V = EntryView;

    open spec fn view(&self) -> EntryView {
        match *self {
            CsvEntry::Row(r) => EntryView::Row(r@),
            CsvEntry::Unreadable(e) => EntryView::Unreadable(e@),
        }
    }
}

/// The views of a list of entries.
pub open spec fn entry_views(v: Seq<CsvEntry>) -> Seq<EntryView> {
    v.map_values(|e: CsvEntry| e@)
}

/// A field without blanks around it; nothing where the record is too short.
pub open spec fn cell(fields: Seq<Seq<char>>, i: nat) -> Seq<char> {
    if i < fields.len() {
        trimmed(fields[i as int])
    } else {
        trimmed(seq![])
    }
}

/// A field, where the column and the field are there.
pub open spec fn opt_cell(fields: Seq<Seq<char>>, i: Option<nat>) -> Option<Seq<char>> {
    match i {
        Some(n) => if n < fields.len() {
            Some(fields[n as int])
        } else {
            None
        },
        None => None,
    }
}

/// A modulation out of a description: FM where it speaks of FM, else AM where
/// it speaks of AM.
pub open spec fn mode_in(s: Seq<char>) -> Option<Seq<char>> {
    if has_part(lowercase(s), "fm"@) {
        Some("fm"@)
    } else if has_part(lowercase(s), "am"@) {
        Some("am"@)
    } else {
        None
    }
}

/// The modulation of a field.
pub open spec fn mode_cell(s: Option<Seq<char>>) -> Option<Seq<char>> {
    match s {
        Some(t) => {
            let l = lowercase(trimmed(t));
            if l.len() == 0 {
                None
            } else {
                mode_in(l)
            }
        },
        None => None,
    }
}

/// The number that a step field starts with, as a text.
pub open spec fn step_cell(s: Option<Seq<char>>) -> Option<Seq<char>> {
    match s {
        Some(t) => {
            let l = lowercase(trimmed(t));
            if l.len() == 0 {
                None
            } else {
                Some(number_prefix(l))
            }
        },
        None => None,
    }
}

/// The remark of a field that is not empty.
pub open spec fn notes_cell(s: Option<Seq<char>>) -> Option<Seq<char>> {
    match s {
        Some(t) => if trimmed(t).len() == 0 {
            None
        } else {
            Some(trimmed(t))
        },
        None => None,
    }
}

/// The number that a tone field starts with, as a text. `None` and `off` say
/// that there is no tone.
pub open spec fn tone_cell(s: Option<Seq<char>>) -> Option<Seq<char>> {
    match s {
        Some(t) => {
            let w = trimmed(t);
            if w.len() == 0 || ascii_lower(w) == ascii_lower("none"@) || ascii_lower(w)
                == ascii_lower("off"@) {
                None
            } else {
                Some(number_prefix(w))
            }
        },
        None => None,
    }
}

/// The row of a record. A record without a name gives none.
pub open spec fn row_of(c: ColumnsView, fields: Seq<Seq<char>>) -> Option<RowView> {
    if cell(fields, c.name).len() == 0 {
        None
    } else {
        Some(
            RowView {
                name: cell(fields, c.name),
                rx: cell(fields, c.rx),
                tx: cell(fields, c.tx),
                mode: mode_cell(opt_cell(fields, c.mode)),
                step: step_cell(opt_cell(fields, c.step)),
                notes: notes_cell(opt_cell(fields, c.notes)),
                ctcss: tone_cell(opt_cell(fields, c.ctcss)),
            },
        )
    }
}

/// What the records give, in order. Rows are counted as an editor does: the
/// header is the first.
pub open spec fn entries(
    c: ColumnsView,
    records: Seq<Result<Seq<Seq<char>>, Seq<char>>>,
) -> Seq<EntryView>
    decreases records.len(),
{
    if records.len() == 0 {
        seq![]
    } else {
        let before = entries(c, records.drop_last());
        match records.last() {
            Ok(fields) => match row_of(c, fields) {
                Some(row) => before.push(EntryView::Row(row)),
                None => before,
            },
            Err(e) => before.push(
                EntryView::Unreadable(
                    "row "@ + decimal((records.len() + 1) as nat) + ": "@ + e,
                ),
            ),
        }
    }
}

fn get_cell(fields: &Vec<String>, i: usize) -> (r: String)
    ensures
        r@ == cell(views(fields@), i as nat),
{
    if i < fields.len() {
        fields[i].as_str().trim().to_string()
    } else {
        proof {
            reveal_strlit("");
            assert(""@ =~= seq![]);
        }
        "".trim().to_string()
    }
}

fn get_opt<'a>(fields: &'a Vec<String>, i: Option<usize>) -> (r: Option<&'a str>)
    ensures
        match r {
            Some(s) => opt_cell(views(fields@), col(i)) == Some(s@),
            None => opt_cell(views(fields@), col(i)) is None,
        },
{
    match i {
        Some(n) => if n < fields.len() {
            Some(fields[n].as_str())
        } else {
            None
        },
        None => None,
    }
}

/// A modulation out of a description.
pub fn normalize_mode(s: &str) -> (r: Option<String>)
    ensures
        opt_view(r) == mode_in(s@),
{
    let l = to_lower(s);
    if contains_part(l.as_str(), "fm") {
        Some("fm".to_string())
    } else if contains_part(l.as_str(), "am") {
        Some("am".to_string())
    } else {
        None
    }
}

fn mode_text(s: &str) -> (r: Option<String>)
    ensures
        opt_view(r) == mode_cell(Some(s@)),
{
    let l = to_lower(s.trim());
    if l.as_str().is_empty() {
        None
    } else {
        normalize_mode(l.as_str())
    }
}

/// The number that a step such as `12.5 kHz` starts with, as a text.
pub fn step_text(s: &str) -> (r: Option<String>)
    ensures
        opt_view(r) == step_cell(Some(s@)),
{
    let l = to_lower(s.trim());
    if l.as_str().is_empty() {
        None
    } else {
        Some(leading_number(l.as_str()))
    }
}

fn notes_text(s: &str) -> (r: Option<String>)
    ensures
        opt_view(r) == notes_cell(Some(s@)),
{
    let t = s.trim();
    if t.is_empty() {
        None
    } else {
        Some(t.to_string())
    }
}

/// The number that a tone such as `162.2 Hz` starts with, as a text. Nothing
/// for an empty field, `None` and `off`.
pub fn tone_text(s: &str) -> (r: Option<String>)
    ensures
        opt_view(r) == tone_cell(Some(s@)),
{
    let t = s.trim();
    if t.is_empty() || eq_ignore_case(t, "none") || eq_ignore_case(t, "off") {
        None
    } else {
        Some(leading_number(t))
    }
}

/// The text of a frequency in MHz as a number parser takes it.
pub open spec fn mhz_cell(s: Seq<char>) -> Option<Seq<char>> {
    if s.len() == 0 {
        None
    } else {
        Some(trimmed(s).filter(|c: char| c != ','))
    }
}

/// The text of a frequency in MHz as a number parser takes it: without blanks
/// around it and without commas. Nothing for an empty text.
pub fn mhz_text(s: &str) -> (r: Option<String>)
    ensures
        opt_view(r) == mhz_cell(s@),
{
    if s.is_empty() {
        None
    } else {
        Some(without_commas(s.trim()))
    }
}

fn read_row(c: &Columns, fields: &Vec<String>) -> (r: Option<CsvRow>)
    ensures
        match r {
            Some(row) => row_of(c@, views(fields@)) == Some(row@),
            None => row_of(c@, views(fields@)) is None,
        },
{
    let name = get_cell(fields, c.name);
    if name.as_str().is_empty() {
        return None;
    }
    let mode = match get_opt(fields, c.mode) {
        Some(s) => mode_text(s),
        None => None,
    };
    let step = match get_opt(fields, c.step) {
        Some(s) => step_text(s),
        None => None,
    };
    let notes = match get_opt(fields, c.notes) {
        Some(s) => notes_text(s),
        None => None,
    };
    let ctcss = match get_opt(fields, c.ctcss) {
        Some(s) => tone_text(s),
        None => None,
    };
    Some(
        CsvRow {
            name,
            rx: get_cell(fields, c.rx),
            tx: get_cell(fields, c.tx),
            mode,
            step,
            notes,
            ctcss,
        },
    )
}

/// A text that has been read.
#[derive(Debug)]
pub struct CsvRows {
    pub profile: Profile,
    pub entries: Vec<CsvEntry>,
}

/// What a text with the given headers and records gives.
pub open spec fn reads_as(
    headers: Seq<Seq<char>>,
    records: Seq<Result<Seq<Seq<char>>, Seq<char>>>,
    r: Result<CsvRows, String>,
) -> bool {
    match columns(headers) {
        Some(c) => r is Ok && r->Ok_0.profile == c.profile && entry_views(r->Ok_0.entries@)
            == entries(c, records),
        None => r is Err && r->Err_0@ == no_profile_text(headers),
    }
}

/// Read the records behind a header record.
pub fn read_rows(
    headers: &Vec<String>,
    records: &Vec<Result<Vec<String>, String>>,
) -> (r: Result<CsvRows, String>)
    ensures
        reads_as(views(headers@), records_view(records@), r),
{
    let c = match find_columns(headers) {
        Some(c) => c,
        None => return Err(no_profile(headers)),
    };
    let ghost recs = records_view(records@);
    let mut out: Vec<CsvEntry> = Vec::new();
    let mut i: usize = 0;
    assert(recs.take(0) =~= seq![]);
    assert(entry_views(out@) =~= seq![]);
    while i < records.len()
        invariant
            i <= records.len(),
            recs == records_view(records@),
            entry_views(out@) == entries(c@, recs.take(i as int)),
        decreases records.len() - i,
    {
        let ghost before = out@;
        proof {
            assert(recs.take(i + 1).drop_last() =~= recs.take(i as int));
            assert(recs.take(i + 1).last() == record_view(records@[i as int]));
        }
        match &records[i] {
            Ok(fields) => {
                if let Some(row) = read_row(&c, fields) {
                    out.push(CsvEntry::Row(row));
                    assert(entry_views(out@) =~= entry_views(before).push(EntryView::Row(row@)));
                }
            },
            Err(e) => {
                let mut text = String::new();
                text.append("row ");
                append_decimal(&mut text, i as u128 + 2);
                text.append(": ");
                text.append(e.as_str());
                assert(text@ =~= "row "@ + decimal((i + 2) as nat) + ": "@ + e@);
                out.push(CsvEntry::Unreadable(text));
                assert(entry_views(out@) =~= entry_views(before).push(
                    EntryView::Unreadable(text@),
                ));
            },
        }
        i = i + 1;
    }
    assert(recs.take(i as int) =~= recs);
    Ok(CsvRows { profile: c.profile, entries: out })
}

/// What a text gives, by its header record and the records behind it.
pub open spec fn parses_as(
    headers: Result<Seq<Seq<char>>, Seq<char>>,
    records: Seq<Result<Seq<Seq<char>>, Seq<char>>>,
    r: Result<CsvRows, String>,
) -> bool {
    match headers {
        Ok(h) => reads_as(h, records, r),
        Err(e) => r is Err && r->Err_0@ == e,
    }
}

/// Read a CSV text.
pub fn parse_csv(body: &str) -> (r: Result<CsvRows, String>)
    ensures
        parses_as(csv_header_record(body@), csv_data_records(body@), r),
{
    match csv_headers(body) {
        Ok(headers) => read_rows(&headers, &csv_records(body)),
        Err(e) => Err(e),
    }
}

// ---------- Channels ----------

/// The numbers of a row, where its texts have values.
#[derive(Debug, Clone, Copy, PartialEq, Eq, Structural)]
pub struct RowNumbers {
    pub rx_hz: Option<u32>,
    pub tx_hz: Option<u32>,
    pub step_khz: Option<Single>,
    pub ctcss_hz: Option<Single>,
}

/// The outcome of an import.
#[derive(Debug)]
pub struct ParsedCsv {
    pub channels: Vec<OwnedNewChannel>,
    pub skipped: Vec<String>,
    pub profile: Profile,
}

/// The complaint about a frequency that is none.
pub open spec fn not_mhz(name: Seq<char>, side: Seq<char>, raw: Seq<char>) -> Seq<char> {
    name + side + debug_text(raw) + " not a MHz value"@
}

/// A tone that a channel can have; others are left out.
pub open spec fn listed_tone(v: Option<Single>) -> Option<Single> {
    match v {
        Some(t) => if channel_tone(t) {
            Some(t)
        } else {
            None
        },
        None => None,
    }
}

/// The channel of a row, or why it is skipped.
pub open spec fn row_channel(
    group: Seq<char>,
    row: RowView,
    n: RowNumbers,
) -> Result<NewChannelView, Seq<char>> {
    match (n.rx_hz, n.tx_hz) {
        (Some(rx_hz), Some(tx_hz)) => Ok(
            NewChannelView {
                group_name: group,
                name: row.name,
                rx_hz,
                tx_hz,
                mode: row.mode,
                step_khz: n.step_khz,
                notes: row.notes,
                ctcss_hz: listed_tone(n.ctcss_hz),
            },
        ),
        (None, _) => Err(not_mhz(row.name, ": rx "@, row.rx)),
        (Some(_), None) => Err(not_mhz(row.name, ": tx "@, row.tx)),
    }
}

/// The channel of an entry, or why it is skipped.
pub open spec fn entry_channel(
    group: Seq<char>,
    entry: EntryView,
    n: RowNumbers,
) -> Result<NewChannelView, Seq<char>> {
    match entry {
        EntryView::Row(row) => row_channel(group, row, n),
        EntryView::Unreadable(e) => Err(e),
    }
}

/// The channels that the entries give, in order.
pub open spec fn imported(
    group: Seq<char>,
    es: Seq<EntryView>,
    ns: Seq<RowNumbers>,
) -> Seq<NewChannelView>
    decreases es.len(),
{
    if es.len() == 0 {
        seq![]
    } else {
        let before = imported(group, es.drop_last(), ns);
        match entry_channel(group, es.last(), ns[es.len() - 1]) {
            Ok(c) => before.push(c),
            Err(_) => before,
        }
    }
}

/// Why entries are skipped, in order.
pub open spec fn complaints(
    group: Seq<char>,
    es: Seq<EntryView>,
    ns: Seq<RowNumbers>,
) -> Seq<Seq<char>>
    decreases es.len(),
{
    if es.len() == 0 {
        seq![]
    } else {
        let before = complaints(group, es.drop_last(), ns);
        match entry_channel(group, es.last(), ns[es.len() - 1]) {
            Ok(_) => before,
            Err(e) => before.push(e),
        }
    }
}

/// The views of a list of channels.
pub open spec fn channel_views(v: Seq<OwnedNewChannel>) -> Seq<NewChannelView> {
    v.map_values(|c: OwnedNewChannel| c@)
}

fn complain(name: &str, side: &str, raw: &str) -> (r: String)
    ensures
        r@ == not_mhz(name@, side@, raw@),
{
    let mut out = name.to_string();
    out.append(side);
    out.append(debug_string(raw).as_str());
    out.append(" not a MHz value");
    out
}

fn make_channel(group: &str, row: CsvRow, n: RowNumbers) -> (r: Result<OwnedNewChannel, String>)
    ensures
        match r {
            Ok(c) => row_channel(group@, row@, n) == Ok::<NewChannelView, Seq<char>>(c@),
            Err(e) => row_channel(group@, row@, n) == Err::<NewChannelView, Seq<char>>(e@),
        },
{
    let rx_hz: u32 = match n.rx_hz {
        Some(v) => v,
        None => return Err(complain(row.name.as_str(), ": rx ", row.rx.as_str())),
    };
    let tx_hz: u32 = match n.tx_hz {
        Some(v) => v,
        None => return Err(complain(row.name.as_str(), ": tx ", row.tx.as_str())),
    };
    let ctcss_hz: Option<Single> = match n.ctcss_hz {
        Some(v) => if is_channel_tone(v) {
            Some(v)
        } else {
            None
        },
        None => None,
    };
    Ok(
        OwnedNewChannel {
            group_name: group.to_string(),
            name: row.name,
            rx_hz,
            tx_hz,
            mode: row.mode,
            step_khz: n.step_khz,
            notes: row.notes,
            ctcss_hz,
        },
    )
}

/// Turn the rows into channels of `group`. `numbers` holds the values of each
/// entry's texts; those of an unreadable entry do not matter.
pub fn assemble(rows: CsvRows, group: &str, numbers: &Vec<RowNumbers>) -> (r: ParsedCsv)
    requires
        numbers@.len() == rows.entries@.len(),
    ensures
        r.profile == rows.profile,
        channel_views(r.channels@) == imported(group@, entry_views(rows.entries@), numbers@),
        views(r.skipped@) == complaints(group@, entry_views(rows.entries@), numbers@),
{
    let ghost es = entry_views(rows.entries@);
    let mut channels: Vec<OwnedNewChannel> = Vec::new();
    let mut skipped: Vec<String> = Vec::new();
    let mut left = rows.entries;
    let mut i: usize = 0;
    let count: usize = left.len();
    assert(es.take(0) =~= seq![]);
    assert(channel_views(channels@) =~= seq![]);
    assert(views(skipped@) =~= seq![]);
    assert(es.skip(0) =~= entry_views(left@));
    while i < count
        invariant
            i <= count,
            count == es.len(),
            numbers@.len() == es.len(),
            entry_views(left@) == es.skip(i as int),
            channel_views(channels@) == imported(group@, es.take(i as int), numbers@),
            views(skipped@) == complaints(group@, es.take(i as int), numbers@),
        decreases count - i,
    {
        let ghost had = channels@;
        let ghost said = skipped@;
        let ghost before = left@;
        proof {
            assert(entry_views(left@).len() == left@.len());
            assert(es.take(i + 1).drop_last() =~= es.take(i as int));
            assert(es.take(i + 1).last() == es[i as int]);
            assert(es.skip(i as int)[0] == es[i as int]);
            assert(entry_views(left@)[0] == left@[0]@);
        }
        let entry = left.remove(0);
        assert(entry_views(left@) =~= es.skip(i + 1)) by {
            assert(es.skip(i as int).skip(1) =~= es.skip(i + 1));
            assert(entry_views(left@) =~= entry_views(before).skip(1));
        }
        let outcome = match entry {
            CsvEntry::Unreadable(e) => Err(e),
            CsvEntry::Row(row) => make_channel(group, row, numbers[i]),
        };
        match outcome {
            Ok(c) => {
                channels.push(c);
                assert(channel_views(channels@) =~= channel_views(had).push(c@));
            },
            Err(e) => {
                skipped.push(e);
                assert(views(skipped@) =~= views(said).push(e@));
            },
        }
        i = i + 1;
    }
    assert(es.take(i as int) =~= es);
    ParsedCsv { channels, skipped, profile: rows.profile }
}

/// The answer to an import.
#[derive(Debug)]
pub struct ImportReply {
    pub imported: usize,
    pub skipped: Vec<String>,
    pub group: String,
    pub profile: &'static str,
}

/// Whether an answer is that to an import.
pub open spec fn import_answered(
    stored: Result<usize, String>,
    skipped: Seq<String>,
    group: Seq<char>,
    profile: Profile,
    r: Result<ImportReply, Refusal>,
) -> bool {
    match (stored, r) {
        (Ok(n), Ok(reply)) => reply.imported == n && reply.skipped@ == skipped && reply.group@
            == group && reply.profile@ == profile.text(),
        (Err(e), Err(refusal)) => refusal@ == (RefusalView {
            status: INTERNAL_SERVER_ERROR,
            message: "db: "@ + e@,
        }),
        _ => false,
    }
}

/// The answer to an import whose channels were handed to the database.
pub fn import_reply(
    stored: Result<usize, String>,
    skipped: Vec<String>,
    group: String,
    profile: Profile,
) -> (r: Result<ImportReply, Refusal>)
    ensures
        import_answered(stored, skipped@, group@, profile, r),
{
    match stored {
        Ok(imported) => Ok(ImportReply { imported, skipped, group, profile: profile.as_str() }),
        Err(e) => Err(db_refusal(e.as_str())),
    }
}

// ---------- Laws ----------

/// No named row is lost: every entry becomes a channel or a complaint.
pub proof fn law_every_entry_accounted_for(
    group: Seq<char>,
    es: Seq<EntryView>,
    ns: Seq<RowNumbers>,
)
    ensures
        imported(group, es, ns).len() + complaints(group, es, ns).len() == es.len(),
    decreases es.len(),
{
    if es.len() > 0 {
        law_every_entry_accounted_for(group, es.drop_last(), ns);
    }
}

/// Everything imported goes into the group asked for.
pub proof fn law_imports_into_group(group: Seq<char>, es: Seq<EntryView>, ns: Seq<RowNumbers>, i: int)
    requires
        0 <= i < imported(group, es, ns).len(),
    ensures
        imported(group, es, ns)[i].group_name == group,
    decreases es.len(),
{
    let front = es.drop_last();
    if i < imported(group, front, ns).len() {
        law_imports_into_group(group, front, ns, i);
    }
}

/// Where every frequency has a value, every row is imported, in the radio's
/// bands or not.
pub proof fn law_out_of_band_rows_imported(
    group: Seq<char>,
    es: Seq<EntryView>,
    ns: Seq<RowNumbers>,
)
    requires
        ns.len() == es.len(),
        forall|i: int|
            0 <= i < es.len() ==> (#[trigger] es[i]) is Row && ns[i].rx_hz is Some && ns[i].tx_hz is Some,
    ensures
        complaints(group, es, ns) == Seq::<Seq<char>>::empty(),
        imported(group, es, ns).len() == es.len(),
    decreases es.len(),
{
    if es.len() > 0 {
        let front = es.drop_last();
        assert(es[es.len() - 1] is Row);
        lemma_front_complaints(group, es, ns, es.len() - 1);
        law_every_entry_accounted_for(group, es, ns);
        assert(es.take(es.len() - 1) =~= front);
    }
}

proof fn lemma_front_complaints(group: Seq<char>, es: Seq<EntryView>, ns: Seq<RowNumbers>, k: int)
    requires
        0 <= k <= es.len() <= ns.len(),
        forall|i: int|
            0 <= i < es.len() ==> (#[trigger] es[i]) is Row && ns[i].rx_hz is Some && ns[i].tx_hz is Some,
    ensures
        complaints(group, es.take(k), ns) == Seq::<Seq<char>>::empty(),
    decreases k,
{
    if k > 0 {
        lemma_front_complaints(group, es, ns, k - 1);
        assert(es.take(k).drop_last() =~= es.take(k - 1));
        assert(es.take(k).last() == es[k - 1]);
    }
}

/// A column that is found is there, and has the header asked for.
pub proof fn law_column_found(h: Seq<Seq<char>>, key: Seq<char>)
    ensures
        match column(h, key) {
            Some(i) => i < h.len() && lowercase(h[i as int]) == key && forall|j: int|
                i < j < h.len() ==> lowercase(#[trigger] h[j]) != key,
            None => forall|j: int| 0 <= j < h.len() ==> lowercase(#[trigger] h[j]) != key,
        },
    decreases h.len(),
{
    if h.len() > 0 && lowercase(h.last()) != key {
        let front = h.drop_last();
        law_column_found(front, key);
        assert forall|j: int| 0 <= j < front.len() implies #[trigger] h[j] == front[j] by {}
    }
}

/// Whether a sheet has a header, capitals or not.
pub open spec fn has_header(h: Seq<Seq<char>>, key: Seq<char>) -> bool {
    exists|j: int| 0 <= j < h.len() && lowercase(#[trigger] h[j]) == key
}

/// Whether a column is headed by the one name or, where no column has that, by
/// the other.
pub open spec fn headed(h: Seq<Seq<char>>, i: nat, name: Seq<char>, other: Seq<char>) -> bool {
    &&& i < h.len()
    &&& lowercase(h[i as int]) == (if has_header(h, name) {
        name
    } else {
        other
    })
}

/// Whether a column that need not be there is found where it is.
pub open spec fn headed_if_there(
    h: Seq<Seq<char>>,
    i: Option<nat>,
    name: Seq<char>,
    other: Seq<char>,
) -> bool {
    match i {
        Some(n) => headed(h, n, name, other),
        None => !has_header(h, name) && !has_header(h, other),
    }
}

proof fn lemma_headed(h: Seq<Seq<char>>, name: Seq<char>, other: Seq<char>)
    ensures
        column(h, name) is Some <==> has_header(h, name),
        headed_if_there(h, either(column(h, name), column(h, other)), name, other),
        headed_if_there(h, column(h, name), name, name),
        either(column(h, name), column(h, other)) is Some <==> has_header(h, name) || has_header(
            h,
            other,
        ),
{
    law_column_found(h, name);
    law_column_found(h, other);
    if let Some(i) = column(h, name) {
        assert(lowercase(h[i as int]) == name);
    }
    if let Some(i) = column(h, other) {
        assert(lowercase(h[i as int]) == other);
    }
}

/// Which sheets are read, and as what: a sheet with downlink, uplink and name is
/// a satcom sheet; else one with a receive frequency, a transmit frequency and
/// a name is a ham sheet; else one with a receive column, a transmit column and
/// a name is a canonical one; all others are refused.
pub proof fn law_sheet_kinds(h: Seq<Seq<char>>)
    ensures
        ({
            let named = has_header(h, "name"@);
            let satcom = named && has_header(h, "downlink"@) && has_header(h, "uplink"@);
            let ham = named && (has_header(h, "receive frequency"@) || has_header(
                h,
                "rx frequency"@,
            )) && (has_header(h, "transmit frequency"@) || has_header(h, "tx frequency"@));
            let canonical = named && (has_header(h, "rx_mhz"@) || has_header(h, "rx"@)) && (
            has_header(h, "tx_mhz"@) || has_header(h, "tx"@));
            &&& columns(h) is Some <==> satcom || ham || canonical
            &&& columns(h) is Some ==> columns(h)->0.profile == (if satcom {
                Profile::Satcom
            } else if ham {
                Profile::HamFull
            } else {
                Profile::Canonical
            })
        }),
{
    lemma_headed(h, "name"@, "name"@);
    lemma_headed(h, "downlink"@, "downlink"@);
    lemma_headed(h, "uplink"@, "uplink"@);
    lemma_headed(h, "receive frequency"@, "rx frequency"@);
    lemma_headed(h, "transmit frequency"@, "tx frequency"@);
    lemma_headed(h, "rx_mhz"@, "rx"@);
    lemma_headed(h, "tx_mhz"@, "tx"@);
}

/// Every column is read from under its own header: the receive frequency from
/// the receive column, the transmit frequency from the transmit column, and so
/// on, in each of the three kinds of sheet.
pub proof fn law_columns_by_header(h: Seq<Seq<char>>)
    ensures
        match columns(h) {
            Some(c) => {
                &&& headed(h, c.name, "name"@, "name"@)
                &&& c.profile is Satcom ==> {
                    &&& headed(h, c.rx, "downlink"@, "downlink"@)
                    &&& headed(h, c.tx, "uplink"@, "uplink"@)
                    &&& c.mode is None
                    &&& headed_if_there(h, c.step, "bandwidth khz"@, "step"@)
                    &&& headed_if_there(h, c.notes, "comment"@, "notes"@)
                    &&& headed_if_there(h, c.ctcss, "ctcss"@, "tone"@)
                }
                &&& c.profile is HamFull ==> {
                    &&& headed(h, c.rx, "receive frequency"@, "rx frequency"@)
                    &&& headed(h, c.tx, "transmit frequency"@, "tx frequency"@)
                    &&& headed_if_there(h, c.mode, "operating mode"@, "mode"@)
                    &&& headed_if_there(h, c.step, "step"@, "step"@)
                    &&& headed_if_there(h, c.notes, "comment"@, "notes"@)
                    &&& headed_if_there(h, c.ctcss, "ctcss"@, "tone"@)
                }
                &&& c.profile is Canonical ==> {
                    &&& headed(h, c.rx, "rx_mhz"@, "rx"@)
                    &&& headed(h, c.tx, "tx_mhz"@, "tx"@)
                    &&& headed_if_there(h, c.mode, "mode"@, "mode"@)
                    &&& headed_if_there(h, c.step, "step_khz"@, "step"@)
                    &&& headed_if_there(h, c.notes, "notes"@, "comment"@)
                    &&& has_header(h, "ctcss_hz"@) ==> c.ctcss is Some && headed(
                        h,
                        c.ctcss->0,
                        "ctcss_hz"@,
                        "ctcss_hz"@,
                    )
                    &&& !has_header(h, "ctcss_hz"@) ==> headed_if_there(
                        h,
                        c.ctcss,
                        "ctcss"@,
                        "tone"@,
                    )
                }
            },
            None => true,
        },
{
    lemma_headed(h, "name"@, "name"@);
    lemma_headed(h, "downlink"@, "downlink"@);
    lemma_headed(h, "uplink"@, "uplink"@);
    lemma_headed(h, "receive frequency"@, "rx frequency"@);
    lemma_headed(h, "transmit frequency"@, "tx frequency"@);
    lemma_headed(h, "rx_mhz"@, "rx"@);
    lemma_headed(h, "tx_mhz"@, "tx"@);
    lemma_headed(h, "bandwidth khz"@, "step"@);
    lemma_headed(h, "comment"@, "notes"@);
    lemma_headed(h, "notes"@, "comment"@);
    lemma_headed(h, "ctcss"@, "tone"@);
    lemma_headed(h, "operating mode"@, "mode"@);
    lemma_headed(h, "mode"@, "mode"@);
    lemma_headed(h, "step"@, "step"@);
    lemma_headed(h, "step_khz"@, "step"@);
    lemma_headed(h, "ctcss_hz"@, "ctcss_hz"@);
}

/// The row of a record holds the record's own fields, without the blanks around
/// them: the name under the name column, the frequencies under theirs, the
/// remark under its own. A record whose name is blank gives no row. Fields that
/// are missing count as empty.
pub proof fn law_row_from_fields(c: ColumnsView, fields: Seq<Seq<char>>)
    ensures
        ({
            let at = |i: nat|
                if i < fields.len() {
                    trimmed(fields[i as int])
                } else {
                    Seq::<char>::empty()
                };
            &&& row_of(c, fields) is None <==> at(c.name).len() == 0
            &&& row_of(c, fields) is Some ==> {
                let row = row_of(c, fields)->0;
                &&& row.name == at(c.name)
                &&& row.rx == at(c.rx)
                &&& row.tx == at(c.tx)
                &&& row.notes == (if c.notes is Some && at(c.notes->0).len() > 0 {
                    Some(at(c.notes->0))
                } else {
                    None
                })
                &&& c.mode is None || c.mode->0 >= fields.len() ==> row.mode is None
                &&& c.step is None || c.step->0 >= fields.len() ==> row.step is None
                &&& c.ctcss is None || c.ctcss->0 >= fields.len() ==> row.ctcss is None
            }
        }),
{
    assert(trimmed(seq![]) =~= Seq::<char>::empty());
}

/// In a sheet that is read as canonical, a record's frequencies come from the
/// fields under the receive and the transmit header, and its name from the
/// field under the name header.
pub proof fn law_canonical_record(h: Seq<Seq<char>>, fields: Seq<Seq<char>>)
    requires
        columns(h) is Some,
        columns(h)->0.profile == Profile::Canonical,
        row_of(columns(h)->0, fields) is Some,
        fields.len() >= h.len(),
    ensures
        ({
            let row = row_of(columns(h)->0, fields)->0;
            &&& exists|i: nat|
                #[trigger] headed(h, i, "rx_mhz"@, "rx"@) && row.rx == trimmed(fields[i as int])
            &&& exists|i: nat|
                #[trigger] headed(h, i, "tx_mhz"@, "tx"@) && row.tx == trimmed(fields[i as int])
            &&& exists|i: nat|
                #[trigger] headed(h, i, "name"@, "name"@) && row.name == trimmed(fields[i as int])
        }),
{
    law_columns_by_header(h);
    law_row_from_fields(columns(h)->0, fields);
    let c = columns(h)->0;
    assert(headed(h, c.rx, "rx_mhz"@, "rx"@));
    assert(headed(h, c.tx, "tx_mhz"@, "tx"@));
    assert(headed(h, c.name, "name"@, "name"@));
}

/// A modulation field: anything that speaks of FM is FM, anything else that
/// speaks of AM is AM, and the rest says nothing.
pub proof fn law_mode_field(s: Seq<char>)
    ensures
        has_part(lowercase(s), "fm"@) ==> mode_in(s) == Some("fm"@),
        !has_part(lowercase(s), "fm"@) && has_part(lowercase(s), "am"@) ==> mode_in(s) == Some(
            "am"@,
        ),
        !has_part(lowercase(s), "fm"@) && !has_part(lowercase(s), "am"@) ==> mode_in(s) is None,
        trimmed(s).len() == 0 ==> mode_cell(Some(s)) is None,
        lowercase(trimmed(s)).len() > 0 ==> mode_cell(Some(s)) == mode_in(lowercase(trimmed(s))),
        mode_cell(None) is None,
{
    if trimmed(s).len() == 0 {
        assert(lowercase(trimmed(s)) =~= trimmed(s));
    }
}

/// The number that a text starts with: the digits and points in front, all of
/// them, and nothing else.
pub proof fn law_leading_number(s: Seq<char>)
    ensures
        ({
            let n = number_prefix(s).len() as int;
            let numeral = |c: char| '0' <= c && c <= '9' || c == '.';
            &&& n <= s.len()
            &&& number_prefix(s) == s.take(n)
            &&& forall|i: int| 0 <= i < n ==> numeral(#[trigger] s[i])
            &&& n < s.len() ==> !numeral(s[n])
        }),
    decreases s.len(),
{
    if s.len() > 0 && ('0' <= s[0] && s[0] <= '9' || s[0] == '.') {
        let rest = s.drop_first();
        law_leading_number(rest);
        let n = number_prefix(s).len() as int;
        assert(number_prefix(s) =~= s.take(n));
        assert forall|i: int| 0 <= i < n implies '0' <= #[trigger] s[i] && s[i] <= '9' || s[i]
            == '.' by {
            if i > 0 {
                assert(rest[i - 1] == s[i]);
            }
        }
        if n < s.len() {
            assert(rest[n - 1] == s[n]);
        }
    } else {
        assert(number_prefix(s) =~= s.take(0));
    }
}

/// A tone field says that there is no tone where it is blank or, capitals or
/// not, `none` or `off`; otherwise it is the number it starts with. A step field
/// is the number it starts with unless it is blank.
pub proof fn law_number_fields(s: Seq<char>)
    ensures
        ({
            let t = trimmed(s);
            let silent = t.len() == 0 || ascii_lower(t) == "none"@ || ascii_lower(t) == "off"@;
            &&& silent ==> tone_cell(Some(s)) is None
            &&& !silent ==> tone_cell(Some(s)) == Some(number_prefix(t))
            &&& t.len() == 0 ==> step_cell(Some(s)) is None
            &&& lowercase(t).len() > 0 ==> step_cell(Some(s)) == Some(number_prefix(lowercase(t)))
        }),
{
    reveal_strlit("none");
    reveal_strlit("off");
    assert(ascii_lower("none"@) =~= "none"@);
    assert(ascii_lower("off"@) =~= "off"@);
    if trimmed(s).len() == 0 {
        assert(lowercase(trimmed(s)) =~= trimmed(s));
    }
}

/// Records are read one by one and in order: where every record can be read and
/// has a name, entry by entry the row is that of the record.
pub proof fn law_rows_in_order(
    c: ColumnsView,
    records: Seq<Result<Seq<Seq<char>>, Seq<char>>>,
    i: int,
)
    requires
        forall|k: int|
            0 <= k < records.len() ==> (#[trigger] records[k]) is Ok && row_of(c, records[k]->Ok_0)
                is Some,
        0 <= i < records.len(),
    ensures
        entries(c, records).len() == records.len(),
        entries(c, records)[i] == EntryView::Row(row_of(c, records[i]->Ok_0)->0),
    decreases records.len(),
{
    let front = records.drop_last();
    assert(records[records.len() - 1] is Ok);
    assert forall|k: int| 0 <= k < front.len() implies (#[trigger] front[k]) is Ok && row_of(
        c,
        front[k]->Ok_0,
    ) is Some by {
        assert(front[k] == records[k]);
    }
    if front.len() > 0 {
        law_rows_in_order(
            c,
            front,
            if i < front.len() {
                i
            } else {
                0
            },
        );
    } else {
        assert(entries(c, front) =~= Seq::<EntryView>::empty());
    }
}

/// A record that cannot be read is reported under its row in an editor, where
/// the header is the first row; one without a name leaves no trace.
pub proof fn law_bad_records(
    c: ColumnsView,
    records: Seq<Result<Seq<Seq<char>>, Seq<char>>>,
    fields: Seq<Seq<char>>,
    e: Seq<char>,
)
    ensures
        entries(c, records.push(Err(e))) == entries(c, records).push(
            EntryView::Unreadable("row "@ + decimal((records.len() + 2) as nat) + ": "@ + e),
        ),
        row_of(c, fields) is None ==> entries(c, records.push(Ok(fields))) == entries(c, records),
        row_of(c, fields) is Some ==> entries(c, records.push(Ok(fields))) == entries(
            c,
            records,
        ).push(EntryView::Row(row_of(c, fields)->0)),
{
    assert(records.push(Err(e)).drop_last() =~= records);
    assert(records.push(Ok(fields)).drop_last() =~= records);
}

/// A row becomes a channel of the group with the row's own name, modulation and
/// remark and the values of its own numbers, receive for receive and transmit
/// for transmit; its tone is kept where it is at least 30 and below 300 Hz. A
/// row is skipped exactly where a frequency has no value, and the receive
/// frequency is complained of first.
pub proof fn law_channel_from_row(group: Seq<char>, row: RowView, n: RowNumbers)
    ensures
        n.rx_hz is Some && n.tx_hz is Some ==> row_channel(group, row, n) is Ok && {
            let c = row_channel(group, row, n)->Ok_0;
            &&& c.group_name == group && c.name == row.name && c.mode == row.mode && c.notes
                == row.notes
            &&& c.rx_hz == n.rx_hz->0
            &&& c.tx_hz == n.tx_hz->0
            &&& c.step_khz == n.step_khz
            &&& n.ctcss_hz is None ==> c.ctcss_hz is None
            &&& n.ctcss_hz matches Some(tone) ==> c.ctcss_hz == (if 0x41f0_0000 <= tone.0 && tone.0
                < 0x4396_0000 {
                Some(tone)
            } else {
                None
            })
        },
        n.rx_hz is None ==> row_channel(group, row, n) == Err::<NewChannelView, Seq<char>>(
            row.name + ": rx "@ + debug_text(row.rx) + " not a MHz value"@,
        ),
        n.rx_hz is Some && n.tx_hz is None ==> row_channel(group, row, n) == Err::<
            NewChannelView,
            Seq<char>,
        >(row.name + ": tx "@ + debug_text(row.tx) + " not a MHz value"@),
{
}

/// Channels come out in the order of the rows, each with its own row's numbers:
/// where every row has both frequencies, the channel at a place is that of the
/// row and the numbers at that place.
pub proof fn law_channels_in_order(group: Seq<char>, es: Seq<EntryView>, ns: Seq<RowNumbers>, i: int)
    requires
        ns.len() == es.len(),
        forall|k: int|
            0 <= k < es.len() ==> (#[trigger] es[k]) is Row && ns[k].rx_hz is Some && ns[k].tx_hz
                is Some,
        0 <= i < es.len(),
    ensures
        imported(group, es, ns).len() == es.len(),
        imported(group, es, ns)[i].name == es[i]->Row_0.name,
        imported(group, es, ns)[i].rx_hz == ns[i].rx_hz->0,
        imported(group, es, ns)[i].tx_hz == ns[i].tx_hz->0,
{
    lemma_channels_in_order(group, es, ns, es.len() as int, i);
    assert(es.take(es.len() as int) =~= es);
}

proof fn lemma_channels_in_order(
    group: Seq<char>,
    es: Seq<EntryView>,
    ns: Seq<RowNumbers>,
    k: int,
    i: int,
)
    requires
        ns.len() == es.len(),
        forall|j: int|
            0 <= j < es.len() ==> (#[trigger] es[j]) is Row && ns[j].rx_hz is Some && ns[j].tx_hz
                is Some,
        0 <= i < k <= es.len(),
    ensures
        imported(group, es.take(k), ns).len() == k,
        imported(group, es.take(k), ns)[i].name == es[i]->Row_0.name,
        imported(group, es.take(k), ns)[i].rx_hz == ns[i].rx_hz->0,
        imported(group, es.take(k), ns)[i].tx_hz == ns[i].tx_hz->0,
    decreases k,
{
    assert(es.take(k).drop_last() =~= es.take(k - 1));
    assert(es.take(k).last() == es[k - 1]);
    if k > 1 {
        lemma_channels_in_order(
            group,
            es,
            ns,
            k - 1,
            if i < k - 1 {
                i
            } else {
                0
            },
        );
    } else {
        assert(es.take(0) =~= Seq::<EntryView>::empty());
        assert(imported(group, es.take(0), ns) =~= Seq::<NewChannelView>::empty());
    }
}

/// The text of a frequency keeps every character but commas, in order, once the
/// blanks around it are gone; only an empty text gives nothing.
pub proof fn law_mhz_text(s: Seq<char>)
    ensures
        mhz_cell(s) is None <==> s.len() == 0,
        mhz_cell(s) matches Some(t) ==> {
            &&& !t.contains(',')
            &&& !trimmed(s).contains(',') ==> t == trimmed(s)
            &&& t.len() <= trimmed(s).len()
        },
{
    if s.len() > 0 {
        let keep = |c: char| c != ',';
        let t = trimmed(s).filter(keep);
        assert forall|i: int| 0 <= i < t.len() implies t[i] != ',' by {
            trimmed(s).lemma_filter_pred(keep, i);
        }
        trimmed(s).lemma_filter_len(keep);
        if !trimmed(s).contains(',') {
            lemma_nothing_dropped(trimmed(s));
        }
    }
}

proof fn lemma_nothing_dropped(s: Seq<char>)
    requires
        !s.contains(','),
    ensures
        s.filter(|c: char| c != ',') == s,
    decreases s.len(),
{
    reveal(Seq::filter);
    if s.len() > 0 {
        let front = s.drop_last();
        assert(s.contains(s[s.len() - 1]));
        assert forall|i: int| 0 <= i < front.len() implies front[i] != ',' by {
            assert(s.contains(s[i]));
        }
        lemma_nothing_dropped(front);
        assert(front.push(s.last()) =~= s);
    } else {
        assert(s.filter(|c: char| c != ',') =~= s);
    }
}

/// A sheet is read record by record: where its headers fit a kind of sheet and
/// every record can be read and has a name, there is one row for each record, in
/// order, with the record's own name and its own two frequencies, each from the
/// column of its header. A sheet whose headers fit none, or cannot be read, is
/// refused, and with it all of its records.
pub proof fn law_sheet_read(
    headers: Result<Seq<Seq<char>>, Seq<char>>,
    records: Seq<Result<Seq<Seq<char>>, Seq<char>>>,
    r: Result<CsvRows, String>,
    i: int,
)
    requires
        parses_as(headers, records, r),
        0 <= i < records.len(),
    ensures
        r is Ok <==> headers is Ok && columns(headers->Ok_0) is Some,
        headers matches Err(e) ==> r->Err_0@ == e,
        headers is Ok && columns(headers->Ok_0) is Some ==> {
            let c = columns(headers->Ok_0)->0;
            let got = entry_views(r->Ok_0.entries@);
            let fields = records[i]->Ok_0;
            let all_named = forall|k: int|
                0 <= k < records.len() ==> (#[trigger] records[k]) is Ok && row_of(
                    c,
                    records[k]->Ok_0,
                ) is Some;
            &&& r->Ok_0.profile == c.profile
            &&& all_named ==> {
                &&& got.len() == records.len()
                &&& got[i] is Row
                &&& c.name < fields.len() ==> got[i]->Row_0.name == trimmed(fields[c.name as int])
                &&& c.rx < fields.len() ==> got[i]->Row_0.rx == trimmed(fields[c.rx as int])
                &&& c.tx < fields.len() ==> got[i]->Row_0.tx == trimmed(fields[c.tx as int])
            }
        },
{
    if headers is Ok && columns(headers->Ok_0) is Some {
        let c = columns(headers->Ok_0)->0;
        if forall|k: int|
            0 <= k < records.len() ==> (#[trigger] records[k]) is Ok && row_of(c, records[k]->Ok_0)
                is Some {
            law_rows_in_order(c, records, i);
            law_row_from_fields(c, records[i]->Ok_0);
        }
    }
}

/// An import that was stored reports how many channels were, which rows were
/// skipped and why, the group, and the kind of sheet; one that was not is 500.
pub proof fn law_import_answered(
    stored: Result<usize, String>,
    skipped: Seq<String>,
    group: Seq<char>,
    profile: Profile,
    r: Result<ImportReply, Refusal>,
)
    requires
        import_answered(stored, skipped, group, profile, r),
    ensures
        stored is Ok <==> r is Ok,
        r matches Ok(reply) ==> {
            &&& stored == Ok::<usize, String>(reply.imported)
            &&& reply.skipped@ == skipped
            &&& reply.group@ == group
            &&& profile is Satcom ==> reply.profile@ == "satcom"@
            &&& profile is HamFull ==> reply.profile@ == "ham_full"@
            &&& profile is Canonical ==> reply.profile@ == "canonical"@
        },
        stored matches Err(e) ==> r->Err_0.status == 500 && r->Err_0.message@ == "db: "@ + e@,
{
}

/// The complaint about headers that fit no schema shows them all, in order, and
/// names the three schemas.
pub proof fn law_complaint(h: Seq<Seq<char>>)
    ensures
        ({
            let shown = join(h.map_values(|s: Seq<char>| debug_text(s)), ", "@);
            no_profile_text(h) == "could not auto-detect CSV profile; headers were: ["@ + (shown
                + "]. Supported: satcom (Downlink/Uplink/Name), ham_full (Receive Frequency/Transmit Frequency/Name), canonical (name/rx_mhz/tx_mhz)"@)
        }),
{
}

} // verus!
