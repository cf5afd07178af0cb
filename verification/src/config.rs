//! The selector's theme configuration: a line-oriented `key: value`
//! file parsed into an optional setting per recognized key, and the four
//! selector argument strings rendered from those settings with hardcoded
//! defaults for every unset key. Lines whose first non-blank byte is `#`
//! are comments; unrecognized keys are ignored; a later line for the same
//! key overrides an earlier one.

use vstd::prelude::*;

use crate::bytes::find_byte;
use crate::bytes::find_byte_vec;
use crate::bytes::lemma_find_byte_props;
use crate::bytes::lines_of;
use crate::bytes::lines_bytes;
use crate::bytes::bytes_eq;
use crate::bytes::push_all;
use crate::bytes::subvec;
use crate::bytes::trim_trailing;
use crate::bytes::trim_trailing_bytes;
use crate::bytes::trim_ws;
use crate::bytes::trim_ws_bytes;
use crate::parse::opt_view;

verus! {

/// The mathematical content of a [`Config`]: one optional value per
/// recognized key.
#[verifier::ext_equal]
pub ghost struct ConfigView {
    pub border: Option<Seq<u8>>,
    pub padding: Option<Seq<u8>>,
    pub margin: Option<Seq<u8>>,
    pub color_fg: Option<Seq<u8>>,
    pub color_bg: Option<Seq<u8>>,
    pub color_preview_fg: Option<Seq<u8>>,
    pub color_preview_bg: Option<Seq<u8>>,
    pub color_hl: Option<Seq<u8>>,
    pub color_fg_plus: Option<Seq<u8>>,
    pub color_bg_plus: Option<Seq<u8>>,
    pub color_gutter: Option<Seq<u8>>,
    pub color_hl_plus: Option<Seq<u8>>,
    pub color_query: Option<Seq<u8>>,
    pub color_disabled: Option<Seq<u8>>,
    pub color_info: Option<Seq<u8>>,
    pub color_border: Option<Seq<u8>>,
    pub color_prompt: Option<Seq<u8>>,
    pub color_pointer: Option<Seq<u8>>,
    pub color_marker: Option<Seq<u8>>,
    pub color_spinner: Option<Seq<u8>>,
    pub color_header: Option<Seq<u8>>,
}

/// The selector's theme configuration: one optional setting per
/// recognized key of the configuration file.
pub struct Config {
    pub border: Option<Vec<u8>>,
    pub padding: Option<Vec<u8>>,
    pub margin: Option<Vec<u8>>,
    pub color_fg: Option<Vec<u8>>,
    pub color_bg: Option<Vec<u8>>,
    pub color_preview_fg: Option<Vec<u8>>,
    pub color_preview_bg: Option<Vec<u8>>,
    pub color_hl: Option<Vec<u8>>,
    pub color_fg_plus: Option<Vec<u8>>,
    pub color_bg_plus: Option<Vec<u8>>,
    pub color_gutter: Option<Vec<u8>>,
    pub color_hl_plus: Option<Vec<u8>>,
    pub color_query: Option<Vec<u8>>,
    pub color_disabled: Option<Vec<u8>>,
    pub color_info: Option<Vec<u8>>,
    pub color_border: Option<Vec<u8>>,
    pub color_prompt: Option<Vec<u8>>,
    pub color_pointer: Option<Vec<u8>>,
    pub color_marker: Option<Vec<u8>>,
    pub color_spinner: Option<Vec<u8>>,
    pub color_header: Option<Vec<u8>>,
}

impl View for Config {
    type V = ConfigView;

    open spec fn view(&self) -> ConfigView {
        ConfigView {
            border: opt_view(self.border),
            padding: opt_view(self.padding),
            margin: opt_view(self.margin),
            color_fg: opt_view(self.color_fg),
            color_bg: opt_view(self.color_bg),
            color_preview_fg: opt_view(self.color_preview_fg),
            color_preview_bg: opt_view(self.color_preview_bg),
            color_hl: opt_view(self.color_hl),
            color_fg_plus: opt_view(self.color_fg_plus),
            color_bg_plus: opt_view(self.color_bg_plus),
            color_gutter: opt_view(self.color_gutter),
            color_hl_plus: opt_view(self.color_hl_plus),
            color_query: opt_view(self.color_query),
            color_disabled: opt_view(self.color_disabled),
            color_info: opt_view(self.color_info),
            color_border: opt_view(self.color_border),
            color_prompt: opt_view(self.color_prompt),
            color_pointer: opt_view(self.color_pointer),
            color_marker: opt_view(self.color_marker),
            color_spinner: opt_view(self.color_spinner),
            color_header: opt_view(self.color_header),
        }
    }
}

/// The configuration with every key unset.
pub open spec fn empty_config() -> ConfigView {
    ConfigView {
        border: None,
        padding: None,
        margin: None,
        color_fg: None,
        color_bg: None,
        color_preview_fg: None,
        color_preview_bg: None,
        color_hl: None,
        color_fg_plus: None,
        color_bg_plus: None,
        color_gutter: None,
        color_hl_plus: None,
        color_query: None,
        color_disabled: None,
        color_info: None,
        color_border: None,
        color_prompt: None,
        color_pointer: None,
        color_marker: None,
        color_spinner: None,
        color_header: None,
    }
}

impl Config {
    /// A configuration with every key unset.
    pub fn new() -> (r: Self)
        ensures
            r@ == empty_config(),
    {
        let r = Self {
            border: None,
            padding: None,
            margin: None,
            color_fg: None,
            color_bg: None,
            color_preview_fg: None,
            color_preview_bg: None,
            color_hl: None,
            color_fg_plus: None,
            color_bg_plus: None,
            color_gutter: None,
            color_hl_plus: None,
            color_query: None,
            color_disabled: None,
            color_info: None,
            color_border: None,
            color_prompt: None,
            color_pointer: None,
            color_marker: None,
            color_spinner: None,
            color_header: None,
        };
        assert(r@ =~= empty_config());
        r
    }
}

/// The bytes of `"border"`.
pub open spec fn key_border() -> Seq<u8> {
    seq!['b' as u8, 'o' as u8, 'r' as u8, 'd' as u8, 'e' as u8, 'r' as u8]
}

/// The bytes of `"border"`.
fn key_border_vec() -> (r: Vec<u8>)
    ensures
        r@ == key_border(),
{
    let v: Vec<u8> = vec!['b' as u8, 'o' as u8, 'r' as u8, 'd' as u8, 'e' as u8, 'r' as u8];
    assert(v@ =~= key_border());
    v
}

/// The bytes of `"padding"`.
pub open spec fn key_padding() -> Seq<u8> {
    seq!['p' as u8, 'a' as u8, 'd' as u8, 'd' as u8, 'i' as u8, 'n' as u8, 'g' as u8]
}

/// The bytes of `"padding"`.
fn key_padding_vec() -> (r: Vec<u8>)
    ensures
        r@ == key_padding(),
{
    let v: Vec<u8> = vec!['p' as u8, 'a' as u8, 'd' as u8, 'd' as u8, 'i' as u8, 'n' as u8, 'g' as u8];
    assert(v@ =~= key_padding());
    v
}

/// The bytes of `"margin"`.
pub open spec fn key_margin() -> Seq<u8> {
    seq!['m' as u8, 'a' as u8, 'r' as u8, 'g' as u8, 'i' as u8, 'n' as u8]
}

/// The bytes of `"margin"`.
fn key_margin_vec() -> (r: Vec<u8>)
    ensures
        r@ == key_margin(),
{
    let v: Vec<u8> = vec!['m' as u8, 'a' as u8, 'r' as u8, 'g' as u8, 'i' as u8, 'n' as u8];
    assert(v@ =~= key_margin());
    v
}

/// The bytes of `"color_fg"`.
pub open spec fn key_color_fg() -> Seq<u8> {
    seq!['c' as u8, 'o' as u8, 'l' as u8, 'o' as u8, 'r' as u8, '_' as u8, 'f' as u8, 'g' as u8]
}

/// The bytes of `"color_fg"`.
fn key_color_fg_vec() -> (r: Vec<u8>)
    ensures
        r@ == key_color_fg(),
{
    let v: Vec<u8> = vec![
        'c' as u8,
        'o' as u8,
        'l' as u8,
        'o' as u8,
        'r' as u8,
        '_' as u8,
        'f' as u8,
        'g' as u8,
    ];
    assert(v@ =~= key_color_fg());
    v
}

/// The bytes of `"color_bg"`.
pub open spec fn key_color_bg() -> Seq<u8> {
    seq!['c' as u8, 'o' as u8, 'l' as u8, 'o' as u8, 'r' as u8, '_' as u8, 'b' as u8, 'g' as u8]
}

/// The bytes of `"color_bg"`.
fn key_color_bg_vec() -> (r: Vec<u8>)
    ensures
        r@ == key_color_bg(),
{
    let v: Vec<u8> = vec![
        'c' as u8,
        'o' as u8,
        'l' as u8,
        'o' as u8,
        'r' as u8,
        '_' as u8,
        'b' as u8,
        'g' as u8,
    ];
    assert(v@ =~= key_color_bg());
    v
}

/// The bytes of `"color_preview_fg"`.
pub open spec fn key_color_preview_fg() -> Seq<u8> {
    seq![
        'c' as u8,
        'o' as u8,
        'l' as u8,
        'o' as u8,
        'r' as u8,
        '_' as u8,
        'p' as u8,
        'r' as u8,
        'e' as u8,
        'v' as u8,
        'i' as u8,
        'e' as u8,
        'w' as u8,
        '_' as u8,
        'f' as u8,
        'g' as u8,
    ]
}

/// The bytes of `"color_preview_fg"`.
fn key_color_preview_fg_vec() -> (r: Vec<u8>)
    ensures
        r@ == key_color_preview_fg(),
{
    let v: Vec<u8> = vec![
        'c' as u8,
        'o' as u8,
        'l' as u8,
        'o' as u8,
        'r' as u8,
        '_' as u8,
        'p' as u8,
        'r' as u8,
        'e' as u8,
        'v' as u8,
        'i' as u8,
        'e' as u8,
        'w' as u8,
        '_' as u8,
        'f' as u8,
        'g' as u8,
    ];
    assert(v@ =~= key_color_preview_fg());
    v
}

/// The bytes of `"color_preview_bg"`.
pub open spec fn key_color_preview_bg() -> Seq<u8> {
    seq![
        'c' as u8,
        'o' as u8,
        'l' as u8,
        'o' as u8,
        'r' as u8,
        '_' as u8,
        'p' as u8,
        'r' as u8,
        'e' as u8,
        'v' as u8,
        'i' as u8,
        'e' as u8,
        'w' as u8,
        '_' as u8,
        'b' as u8,
        'g' as u8,
    ]
}

/// The bytes of `"color_preview_bg"`.
fn key_color_preview_bg_vec() -> (r: Vec<u8>)
    ensures
        r@ == key_color_preview_bg(),
{
    let v: Vec<u8> = vec![
        'c' as u8,
        'o' as u8,
        'l' as u8,
        'o' as u8,
        'r' as u8,
        '_' as u8,
        'p' as u8,
        'r' as u8,
        'e' as u8,
        'v' as u8,
        'i' as u8,
        'e' as u8,
        'w' as u8,
        '_' as u8,
        'b' as u8,
        'g' as u8,
    ];
    assert(v@ =~= key_color_preview_bg());
    v
}

/// The bytes of `"color_hl"`.
pub open spec fn key_color_hl() -> Seq<u8> {
    seq!['c' as u8, 'o' as u8, 'l' as u8, 'o' as u8, 'r' as u8, '_' as u8, 'h' as u8, 'l' as u8]
}

/// The bytes of `"color_hl"`.
fn key_color_hl_vec() -> (r: Vec<u8>)
    ensures
        r@ == key_color_hl(),
{
    let v: Vec<u8> = vec![
        'c' as u8,
        'o' as u8,
        'l' as u8,
        'o' as u8,
        'r' as u8,
        '_' as u8,
        'h' as u8,
        'l' as u8,
    ];
    assert(v@ =~= key_color_hl());
    v
}

/// The bytes of `"color_fg_plus"`.
pub open spec fn key_color_fg_plus() -> Seq<u8> {
    seq![
        'c' as u8,
        'o' as u8,
        'l' as u8,
        'o' as u8,
        'r' as u8,
        '_' as u8,
        'f' as u8,
        'g' as u8,
        '_' as u8,
        'p' as u8,
        'l' as u8,
        'u' as u8,
        's' as u8,
    ]
}

/// The bytes of `"color_fg_plus"`.
fn key_color_fg_plus_vec() -> (r: Vec<u8>)
    ensures
        r@ == key_color_fg_plus(),
{
    let v: Vec<u8> = vec![
        'c' as u8,
        'o' as u8,
        'l' as u8,
        'o' as u8,
        'r' as u8,
        '_' as u8,
        'f' as u8,
        'g' as u8,
        '_' as u8,
        'p' as u8,
        'l' as u8,
        'u' as u8,
        's' as u8,
    ];
    assert(v@ =~= key_color_fg_plus());
    v
}

/// The bytes of `"color_bg_plus"`.
pub open spec fn key_color_bg_plus() -> Seq<u8> {
    seq![
        'c' as u8,
        'o' as u8,
        'l' as u8,
        'o' as u8,
        'r' as u8,
        '_' as u8,
        'b' as u8,
        'g' as u8,
        '_' as u8,
        'p' as u8,
        'l' as u8,
        'u' as u8,
        's' as u8,
    ]
}

/// The bytes of `"color_bg_plus"`.
fn key_color_bg_plus_vec() -> (r: Vec<u8>)
    ensures
        r@ == key_color_bg_plus(),
{
    let v: Vec<u8> = vec![
        'c' as u8,
        'o' as u8,
        'l' as u8,
        'o' as u8,
        'r' as u8,
        '_' as u8,
        'b' as u8,
        'g' as u8,
        '_' as u8,
        'p' as u8,
        'l' as u8,
        'u' as u8,
        's' as u8,
    ];
    assert(v@ =~= key_color_bg_plus());
    v
}

/// The bytes of `"color_gutter"`.
pub open spec fn key_color_gutter() -> Seq<u8> {
    seq![
        'c' as u8,
        'o' as u8,
        'l' as u8,
        'o' as u8,
        'r' as u8,
        '_' as u8,
        'g' as u8,
        'u' as u8,
        't' as u8,
        't' as u8,
        'e' as u8,
        'r' as u8,
    ]
}

/// The bytes of `"color_gutter"`.
fn key_color_gutter_vec() -> (r: Vec<u8>)
    ensures
        r@ == key_color_gutter(),
{
    let v: Vec<u8> = vec![
        'c' as u8,
        'o' as u8,
        'l' as u8,
        'o' as u8,
        'r' as u8,
        '_' as u8,
        'g' as u8,
        'u' as u8,
        't' as u8,
        't' as u8,
        'e' as u8,
        'r' as u8,
    ];
    assert(v@ =~= key_color_gutter());
    v
}

/// The bytes of `"color_hl_plus"`.
pub open spec fn key_color_hl_plus() -> Seq<u8> {
    seq![
        'c' as u8,
        'o' as u8,
        'l' as u8,
        'o' as u8,
        'r' as u8,
        '_' as u8,
        'h' as u8,
        'l' as u8,
        '_' as u8,
        'p' as u8,
        'l' as u8,
        'u' as u8,
        's' as u8,
    ]
}

/// The bytes of `"color_hl_plus"`.
fn key_color_hl_plus_vec() -> (r: Vec<u8>)
    ensures
        r@ == key_color_hl_plus(),
{
    let v: Vec<u8> = vec![
        'c' as u8,
        'o' as u8,
        'l' as u8,
        'o' as u8,
        'r' as u8,
        '_' as u8,
        'h' as u8,
        'l' as u8,
        '_' as u8,
        'p' as u8,
        'l' as u8,
        'u' as u8,
        's' as u8,
    ];
    assert(v@ =~= key_color_hl_plus());
    v
}

/// The bytes of `"color_query"`.
pub open spec fn key_color_query() -> Seq<u8> {
    seq![
        'c' as u8,
        'o' as u8,
        'l' as u8,
        'o' as u8,
        'r' as u8,
        '_' as u8,
        'q' as u8,
        'u' as u8,
        'e' as u8,
        'r' as u8,
        'y' as u8,
    ]
}

/// The bytes of `"color_query"`.
fn key_color_query_vec() -> (r: Vec<u8>)
    ensures
        r@ == key_color_query(),
{
    let v: Vec<u8> = vec![
        'c' as u8,
        'o' as u8,
        'l' as u8,
        'o' as u8,
        'r' as u8,
        '_' as u8,
        'q' as u8,
        'u' as u8,
        'e' as u8,
        'r' as u8,
        'y' as u8,
    ];
    assert(v@ =~= key_color_query());
    v
}

/// The bytes of `"color_disabled"`.
pub open spec fn key_color_disabled() -> Seq<u8> {
    seq![
        'c' as u8,
        'o' as u8,
        'l' as u8,
        'o' as u8,
        'r' as u8,
        '_' as u8,
        'd' as u8,
        'i' as u8,
        's' as u8,
        'a' as u8,
        'b' as u8,
        'l' as u8,
        'e' as u8,
        'd' as u8,
    ]
}

/// The bytes of `"color_disabled"`.
fn key_color_disabled_vec() -> (r: Vec<u8>)
    ensures
        r@ == key_color_disabled(),
{
    let v: Vec<u8> = vec![
        'c' as u8,
        'o' as u8,
        'l' as u8,
        'o' as u8,
        'r' as u8,
        '_' as u8,
        'd' as u8,
        'i' as u8,
        's' as u8,
        'a' as u8,
        'b' as u8,
        'l' as u8,
        'e' as u8,
        'd' as u8,
    ];
    assert(v@ =~= key_color_disabled());
    v
}

/// The bytes of `"color_info"`.
pub open spec fn key_color_info() -> Seq<u8> {
    seq![
        'c' as u8,
        'o' as u8,
        'l' as u8,
        'o' as u8,
        'r' as u8,
        '_' as u8,
        'i' as u8,
        'n' as u8,
        'f' as u8,
        'o' as u8,
    ]
}

/// The bytes of `"color_info"`.
fn key_color_info_vec() -> (r: Vec<u8>)
    ensures
        r@ == key_color_info(),
{
    let v: Vec<u8> = vec![
        'c' as u8,
        'o' as u8,
        'l' as u8,
        'o' as u8,
        'r' as u8,
        '_' as u8,
        'i' as u8,
        'n' as u8,
        'f' as u8,
        'o' as u8,
    ];
    assert(v@ =~= key_color_info());
    v
}

/// The bytes of `"color_border"`.
pub open spec fn key_color_border() -> Seq<u8> {
    seq![
        'c' as u8,
        'o' as u8,
        'l' as u8,
        'o' as u8,
        'r' as u8,
        '_' as u8,
        'b' as u8,
        'o' as u8,
        'r' as u8,
        'd' as u8,
        'e' as u8,
        'r' as u8,
    ]
}

/// The bytes of `"color_border"`.
fn key_color_border_vec() -> (r: Vec<u8>)
    ensures
        r@ == key_color_border(),
{
    let v: Vec<u8> = vec![
        'c' as u8,
        'o' as u8,
        'l' as u8,
        'o' as u8,
        'r' as u8,
        '_' as u8,
        'b' as u8,
        'o' as u8,
        'r' as u8,
        'd' as u8,
        'e' as u8,
        'r' as u8,
    ];
    assert(v@ =~= key_color_border());
    v
}

/// The bytes of `"color_prompt"`.
pub open spec fn key_color_prompt() -> Seq<u8> {
    seq![
        'c' as u8,
        'o' as u8,
        'l' as u8,
        'o' as u8,
        'r' as u8,
        '_' as u8,
        'p' as u8,
        'r' as u8,
        'o' as u8,
        'm' as u8,
        'p' as u8,
        't' as u8,
    ]
}

/// The bytes of `"color_prompt"`.
fn key_color_prompt_vec() -> (r: Vec<u8>)
    ensures
        r@ == key_color_prompt(),
{
    let v: Vec<u8> = vec![
        'c' as u8,
        'o' as u8,
        'l' as u8,
        'o' as u8,
        'r' as u8,
        '_' as u8,
        'p' as u8,
        'r' as u8,
        'o' as u8,
        'm' as u8,
        'p' as u8,
        't' as u8,
    ];
    assert(v@ =~= key_color_prompt());
    v
}

/// The bytes of `"color_pointer"`.
pub open spec fn key_color_pointer() -> Seq<u8> {
    seq![
        'c' as u8,
        'o' as u8,
        'l' as u8,
        'o' as u8,
        'r' as u8,
        '_' as u8,
        'p' as u8,
        'o' as u8,
        'i' as u8,
        'n' as u8,
        't' as u8,
        'e' as u8,
        'r' as u8,
    ]
}

/// The bytes of `"color_pointer"`.
fn key_color_pointer_vec() -> (r: Vec<u8>)
    ensures
        r@ == key_color_pointer(),
{
    let v: Vec<u8> = vec![
        'c' as u8,
        'o' as u8,
        'l' as u8,
        'o' as u8,
        'r' as u8,
        '_' as u8,
        'p' as u8,
        'o' as u8,
        'i' as u8,
        'n' as u8,
        't' as u8,
        'e' as u8,
        'r' as u8,
    ];
    assert(v@ =~= key_color_pointer());
    v
}

/// The bytes of `"color_marker"`.
pub open spec fn key_color_marker() -> Seq<u8> {
    seq![
        'c' as u8,
        'o' as u8,
        'l' as u8,
        'o' as u8,
        'r' as u8,
        '_' as u8,
        'm' as u8,
        'a' as u8,
        'r' as u8,
        'k' as u8,
        'e' as u8,
        'r' as u8,
    ]
}

/// The bytes of `"color_marker"`.
fn key_color_marker_vec() -> (r: Vec<u8>)
    ensures
        r@ == key_color_marker(),
{
    let v: Vec<u8> = vec![
        'c' as u8,
        'o' as u8,
        'l' as u8,
        'o' as u8,
        'r' as u8,
        '_' as u8,
        'm' as u8,
        'a' as u8,
        'r' as u8,
        'k' as u8,
        'e' as u8,
        'r' as u8,
    ];
    assert(v@ =~= key_color_marker());
    v
}

/// The bytes of `"color_spinner"`.
pub open spec fn key_color_spinner() -> Seq<u8> {
    seq![
        'c' as u8,
        'o' as u8,
        'l' as u8,
        'o' as u8,
        'r' as u8,
        '_' as u8,
        's' as u8,
        'p' as u8,
        'i' as u8,
        'n' as u8,
        'n' as u8,
        'e' as u8,
        'r' as u8,
    ]
}

/// The bytes of `"color_spinner"`.
fn key_color_spinner_vec() -> (r: Vec<u8>)
    ensures
        r@ == key_color_spinner(),
{
    let v: Vec<u8> = vec![
        'c' as u8,
        'o' as u8,
        'l' as u8,
        'o' as u8,
        'r' as u8,
        '_' as u8,
        's' as u8,
        'p' as u8,
        'i' as u8,
        'n' as u8,
        'n' as u8,
        'e' as u8,
        'r' as u8,
    ];
    assert(v@ =~= key_color_spinner());
    v
}

/// The bytes of `"color_header"`.
pub open spec fn key_color_header() -> Seq<u8> {
    seq![
        'c' as u8,
        'o' as u8,
        'l' as u8,
        'o' as u8,
        'r' as u8,
        '_' as u8,
        'h' as u8,
        'e' as u8,
        'a' as u8,
        'd' as u8,
        'e' as u8,
        'r' as u8,
    ]
}

/// The bytes of `"color_header"`.
fn key_color_header_vec() -> (r: Vec<u8>)
    ensures
        r@ == key_color_header(),
{
    let v: Vec<u8> = vec![
        'c' as u8,
        'o' as u8,
        'l' as u8,
        'o' as u8,
        'r' as u8,
        '_' as u8,
        'h' as u8,
        'e' as u8,
        'a' as u8,
        'd' as u8,
        'e' as u8,
        'r' as u8,
    ];
    assert(v@ =~= key_color_header());
    v
}

/// What one configuration line does to the settings: a comment line or a
/// line without a colon changes nothing; otherwise the trimmed text before
/// the first colon names the key and the trimmed text after it becomes
/// that key's value, unrecognized keys changing nothing.
pub open spec fn config_update(c: ConfigView, line: Seq<u8>) -> ConfigView {
    let t = trim_ws(line);
    if t.len() > 0 && t[0] == '#' as u8 {
        c
    } else {
        match find_byte(line, ':' as u8) {
            None => c,
            Some(p) => {
                let k = trim_ws(line.take(p));
                let v = Some(trim_ws(line.skip(p + 1)));
                if k == key_border() {
                    ConfigView { border: v, ..c }
                } else if k == key_padding() {
                    ConfigView { padding: v, ..c }
                } else if k == key_margin() {
                    ConfigView { margin: v, ..c }
                } else if k == key_color_fg() {
                    ConfigView { color_fg: v, ..c }
                } else if k == key_color_bg() {
                    ConfigView { color_bg: v, ..c }
                } else if k == key_color_preview_fg() {
                    ConfigView { color_preview_fg: v, ..c }
                } else if k == key_color_preview_bg() {
                    ConfigView { color_preview_bg: v, ..c }
                } else if k == key_color_hl() {
                    ConfigView { color_hl: v, ..c }
                } else if k == key_color_fg_plus() {
                    ConfigView { color_fg_plus: v, ..c }
                } else if k == key_color_bg_plus() {
                    ConfigView { color_bg_plus: v, ..c }
                } else if k == key_color_gutter() {
                    ConfigView { color_gutter: v, ..c }
                } else if k == key_color_hl_plus() {
                    ConfigView { color_hl_plus: v, ..c }
                } else if k == key_color_query() {
                    ConfigView { color_query: v, ..c }
                } else if k == key_color_disabled() {
                    ConfigView { color_disabled: v, ..c }
                } else if k == key_color_info() {
                    ConfigView { color_info: v, ..c }
                } else if k == key_color_border() {
                    ConfigView { color_border: v, ..c }
                } else if k == key_color_prompt() {
                    ConfigView { color_prompt: v, ..c }
                } else if k == key_color_pointer() {
                    ConfigView { color_pointer: v, ..c }
                } else if k == key_color_marker() {
                    ConfigView { color_marker: v, ..c }
                } else if k == key_color_spinner() {
                    ConfigView { color_spinner: v, ..c }
                } else if k == key_color_header() {
                    ConfigView { color_header: v, ..c }
                } else {
                    c
                }
            },
        }
    }
}

/// The settings after the given lines are applied in order.
pub open spec fn apply_config_lines(c: ConfigView, ls: Seq<Seq<u8>>) -> ConfigView
    decreases ls.len(),
{
    if ls.len() == 0 {
        c
    } else {
        apply_config_lines(config_update(c, ls[0]), ls.skip(1))
    }
}

/// One more line applies after the ones before it.
proof fn lemma_apply_config_lines_push(c: ConfigView, ls: Seq<Seq<u8>>, x: Seq<u8>)
    ensures
        apply_config_lines(c, ls.push(x)) == config_update(apply_config_lines(c, ls), x),
    decreases ls.len(),
{
    let lp = ls.push(x);
    if ls.len() == 0 {
        reveal_with_fuel(apply_config_lines, 3);
        assert(lp[0] == x);
        assert(lp.skip(1) =~= Seq::<Seq<u8>>::empty());
    } else {
        assert(lp[0] == ls[0]);
        assert(lp.skip(1) =~= ls.skip(1).push(x));
        lemma_apply_config_lines_push(config_update(c, ls[0]), ls.skip(1), x);
    }
}

/// The settings a configuration file's bytes denote: every line applied in
/// order to the empty configuration.
pub open spec fn parse_config_spec(raw: Seq<u8>) -> ConfigView {
    apply_config_lines(empty_config(), lines_of(raw))
}

/// Parses a configuration file's bytes into the settings they denote.
#[verifier::rlimit(100)]
pub fn parse_config(raw: &Vec<u8>) -> (r: Config)
    ensures
        r@ == parse_config_spec(raw@),
{
    let ls = lines_bytes(raw);
    let ghost ld = ls.deep_view();
    let key_border_v = key_border_vec();
    let key_padding_v = key_padding_vec();
    let key_margin_v = key_margin_vec();
    let key_color_fg_v = key_color_fg_vec();
    let key_color_bg_v = key_color_bg_vec();
    let key_color_preview_fg_v = key_color_preview_fg_vec();
    let key_color_preview_bg_v = key_color_preview_bg_vec();
    let key_color_hl_v = key_color_hl_vec();
    let key_color_fg_plus_v = key_color_fg_plus_vec();
    let key_color_bg_plus_v = key_color_bg_plus_vec();
    let key_color_gutter_v = key_color_gutter_vec();
    let key_color_hl_plus_v = key_color_hl_plus_vec();
    let key_color_query_v = key_color_query_vec();
    let key_color_disabled_v = key_color_disabled_vec();
    let key_color_info_v = key_color_info_vec();
    let key_color_border_v = key_color_border_vec();
    let key_color_prompt_v = key_color_prompt_vec();
    let key_color_pointer_v = key_color_pointer_vec();
    let key_color_marker_v = key_color_marker_vec();
    let key_color_spinner_v = key_color_spinner_vec();
    let key_color_header_v = key_color_header_vec();
    let mut c = Config::new();
    let mut i: usize = 0;
    assert(ld.take(0) =~= Seq::<Seq<u8>>::empty());
    while i < ls.len()
        invariant
            i <= ls@.len(),
            ld == ls.deep_view(),
            key_border_v@ == key_border(),
            key_padding_v@ == key_padding(),
            key_margin_v@ == key_margin(),
            key_color_fg_v@ == key_color_fg(),
            key_color_bg_v@ == key_color_bg(),
            key_color_preview_fg_v@ == key_color_preview_fg(),
            key_color_preview_bg_v@ == key_color_preview_bg(),
            key_color_hl_v@ == key_color_hl(),
            key_color_fg_plus_v@ == key_color_fg_plus(),
            key_color_bg_plus_v@ == key_color_bg_plus(),
            key_color_gutter_v@ == key_color_gutter(),
            key_color_hl_plus_v@ == key_color_hl_plus(),
            key_color_query_v@ == key_color_query(),
            key_color_disabled_v@ == key_color_disabled(),
            key_color_info_v@ == key_color_info(),
            key_color_border_v@ == key_color_border(),
            key_color_prompt_v@ == key_color_prompt(),
            key_color_pointer_v@ == key_color_pointer(),
            key_color_marker_v@ == key_color_marker(),
            key_color_spinner_v@ == key_color_spinner(),
            key_color_header_v@ == key_color_header(),
            c@ == apply_config_lines(empty_config(), ld.take(i as int)),
        decreases ls@.len() - i,
    {
        proof {
            lemma_apply_config_lines_push(empty_config(), ld.take(i as int), ld[i as int]);
            assert(ld.take(i as int + 1) =~= ld.take(i as int).push(ld[i as int]));
        }
        let line = &ls[i];
        assert(ld[i as int] == line@);
        let ghost before = c@;
        let t = trim_ws_bytes(line);
        if t.len() > 0 && t[0] == '#' as u8 {
        } else {
            match find_byte_vec(line, ':' as u8) {
                None => {},
                Some(p) => {
                    proof {
                        lemma_find_byte_props(line@, ':' as u8);
                    }
                    let n = line.len();
                    assert(p < n);
                    let kpart = subvec(line, 0, p);
                    let vpart = subvec(line, p + 1, n);
                    let k = trim_ws_bytes(&kpart);
                    let v = trim_ws_bytes(&vpart);
                    assert(k@ == trim_ws(line@.take(p as int)));
                    assert(v@ == trim_ws(line@.skip(p as int + 1)));
                    if bytes_eq(&k, &key_border_v) {
                        c.border = Some(v);
                    } else if bytes_eq(&k, &key_padding_v) {
                        c.padding = Some(v);
                    } else if bytes_eq(&k, &key_margin_v) {
                        c.margin = Some(v);
                    } else if bytes_eq(&k, &key_color_fg_v) {
                        c.color_fg = Some(v);
                    } else if bytes_eq(&k, &key_color_bg_v) {
                        c.color_bg = Some(v);
                    } else if bytes_eq(&k, &key_color_preview_fg_v) {
                        c.color_preview_fg = Some(v);
                    } else if bytes_eq(&k, &key_color_preview_bg_v) {
                        c.color_preview_bg = Some(v);
                    } else if bytes_eq(&k, &key_color_hl_v) {
                        c.color_hl = Some(v);
                    } else if bytes_eq(&k, &key_color_fg_plus_v) {
                        c.color_fg_plus = Some(v);
                    } else if bytes_eq(&k, &key_color_bg_plus_v) {
                        c.color_bg_plus = Some(v);
                    } else if bytes_eq(&k, &key_color_gutter_v) {
                        c.color_gutter = Some(v);
                    } else if bytes_eq(&k, &key_color_hl_plus_v) {
                        c.color_hl_plus = Some(v);
                    } else if bytes_eq(&k, &key_color_query_v) {
                        c.color_query = Some(v);
                    } else if bytes_eq(&k, &key_color_disabled_v) {
                        c.color_disabled = Some(v);
                    } else if bytes_eq(&k, &key_color_info_v) {
                        c.color_info = Some(v);
                    } else if bytes_eq(&k, &key_color_border_v) {
                        c.color_border = Some(v);
                    } else if bytes_eq(&k, &key_color_prompt_v) {
                        c.color_prompt = Some(v);
                    } else if bytes_eq(&k, &key_color_pointer_v) {
                        c.color_pointer = Some(v);
                    } else if bytes_eq(&k, &key_color_marker_v) {
                        c.color_marker = Some(v);
                    } else if bytes_eq(&k, &key_color_spinner_v) {
                        c.color_spinner = Some(v);
                    } else if bytes_eq(&k, &key_color_header_v) {
                        c.color_header = Some(v);
                    }
                },
            }
        }
        assert(c@ == config_update(before, ld[i as int]));
        i = i + 1;
    }
    assert(ld.take(ls@.len() as int) =~= ld);
    c
}

/// The bytes of `"--margin="`.
pub open spec fn margin_arg_prefix() -> Seq<u8> {
    seq![
        '-' as u8,
        '-' as u8,
        'm' as u8,
        'a' as u8,
        'r' as u8,
        'g' as u8,
        'i' as u8,
        'n' as u8,
        '=' as u8,
    ]
}

/// The bytes of `"--margin="`.
fn margin_arg_prefix_vec() -> (r: Vec<u8>)
    ensures
        r@ == margin_arg_prefix(),
{
    let v: Vec<u8> = vec![
        '-' as u8,
        '-' as u8,
        'm' as u8,
        'a' as u8,
        'r' as u8,
        'g' as u8,
        'i' as u8,
        'n' as u8,
        '=' as u8,
    ];
    assert(v@ =~= margin_arg_prefix());
    v
}

/// The bytes of `"--padding="`.
pub open spec fn padding_arg_prefix() -> Seq<u8> {
    seq![
        '-' as u8,
        '-' as u8,
        'p' as u8,
        'a' as u8,
        'd' as u8,
        'd' as u8,
        'i' as u8,
        'n' as u8,
        'g' as u8,
        '=' as u8,
    ]
}

/// The bytes of `"--padding="`.
fn padding_arg_prefix_vec() -> (r: Vec<u8>)
    ensures
        r@ == padding_arg_prefix(),
{
    let v: Vec<u8> = vec![
        '-' as u8,
        '-' as u8,
        'p' as u8,
        'a' as u8,
        'd' as u8,
        'd' as u8,
        'i' as u8,
        'n' as u8,
        'g' as u8,
        '=' as u8,
    ];
    assert(v@ =~= padding_arg_prefix());
    v
}

/// The bytes of `"--border="`.
pub open spec fn border_arg_prefix() -> Seq<u8> {
    seq![
        '-' as u8,
        '-' as u8,
        'b' as u8,
        'o' as u8,
        'r' as u8,
        'd' as u8,
        'e' as u8,
        'r' as u8,
        '=' as u8,
    ]
}

/// The bytes of `"--border="`.
fn border_arg_prefix_vec() -> (r: Vec<u8>)
    ensures
        r@ == border_arg_prefix(),
{
    let v: Vec<u8> = vec![
        '-' as u8,
        '-' as u8,
        'b' as u8,
        'o' as u8,
        'r' as u8,
        'd' as u8,
        'e' as u8,
        'r' as u8,
        '=' as u8,
    ];
    assert(v@ =~= border_arg_prefix());
    v
}

/// The bytes of `"--color="`.
pub open spec fn color_arg_prefix() -> Seq<u8> {
    seq!['-' as u8, '-' as u8, 'c' as u8, 'o' as u8, 'l' as u8, 'o' as u8, 'r' as u8, '=' as u8]
}

/// The bytes of `"--color="`.
fn color_arg_prefix_vec() -> (r: Vec<u8>)
    ensures
        r@ == color_arg_prefix(),
{
    let v: Vec<u8> = vec![
        '-' as u8,
        '-' as u8,
        'c' as u8,
        'o' as u8,
        'l' as u8,
        'o' as u8,
        'r' as u8,
        '=' as u8,
    ];
    assert(v@ =~= color_arg_prefix());
    v
}

/// The bytes of `"10,20"`.
pub open spec fn margin_default() -> Seq<u8> {
    seq!['1' as u8, '0' as u8, ',' as u8, '2' as u8, '0' as u8]
}

/// The bytes of `"10,20"`.
fn margin_default_vec() -> (r: Vec<u8>)
    ensures
        r@ == margin_default(),
{
    let v: Vec<u8> = vec!['1' as u8, '0' as u8, ',' as u8, '2' as u8, '0' as u8];
    assert(v@ =~= margin_default());
    v
}

/// The bytes of `"1"`.
pub open spec fn padding_default() -> Seq<u8> {
    seq!['1' as u8]
}

/// The bytes of `"1"`.
fn padding_default_vec() -> (r: Vec<u8>)
    ensures
        r@ == padding_default(),
{
    let v: Vec<u8> = vec!['1' as u8];
    assert(v@ =~= padding_default());
    v
}

/// The bytes of `"rounded"`.
pub open spec fn border_default() -> Seq<u8> {
    seq!['r' as u8, 'o' as u8, 'u' as u8, 'n' as u8, 'd' as u8, 'e' as u8, 'd' as u8]
}

/// The bytes of `"rounded"`.
fn border_default_vec() -> (r: Vec<u8>)
    ensures
        r@ == border_default(),
{
    let v: Vec<u8> = vec!['r' as u8, 'o' as u8, 'u' as u8, 'n' as u8, 'd' as u8, 'e' as u8, 'd' as u8];
    assert(v@ =~= border_default());
    v
}

/// The bytes of `"fg:"`.
pub open spec fn prefix_color_fg() -> Seq<u8> {
    seq!['f' as u8, 'g' as u8, ':' as u8]
}

/// The bytes of `"fg:"`.
fn prefix_color_fg_vec() -> (r: Vec<u8>)
    ensures
        r@ == prefix_color_fg(),
{
    let v: Vec<u8> = vec!['f' as u8, 'g' as u8, ':' as u8];
    assert(v@ =~= prefix_color_fg());
    v
}

/// The bytes of `"fg:#636363,"`.
pub open spec fn default_color_fg() -> Seq<u8> {
    seq![
        'f' as u8,
        'g' as u8,
        ':' as u8,
        '#' as u8,
        '6' as u8,
        '3' as u8,
        '6' as u8,
        '3' as u8,
        '6' as u8,
        '3' as u8,
        ',' as u8,
    ]
}

/// The bytes of `"fg:#636363,"`.
fn default_color_fg_vec() -> (r: Vec<u8>)
    ensures
        r@ == default_color_fg(),
{
    let v: Vec<u8> = vec![
        'f' as u8,
        'g' as u8,
        ':' as u8,
        '#' as u8,
        '6' as u8,
        '3' as u8,
        '6' as u8,
        '3' as u8,
        '6' as u8,
        '3' as u8,
        ',' as u8,
    ];
    assert(v@ =~= default_color_fg());
    v
}

/// The bytes of `"bg:"`.
pub open spec fn prefix_color_bg() -> Seq<u8> {
    seq!['b' as u8, 'g' as u8, ':' as u8]
}

/// The bytes of `"bg:"`.
fn prefix_color_bg_vec() -> (r: Vec<u8>)
    ensures
        r@ == prefix_color_bg(),
{
    let v: Vec<u8> = vec!['b' as u8, 'g' as u8, ':' as u8];
    assert(v@ =~= prefix_color_bg());
    v
}

/// The bytes of `"fg+:"`.
pub open spec fn prefix_color_fg_plus() -> Seq<u8> {
    seq!['f' as u8, 'g' as u8, '+' as u8, ':' as u8]
}

/// The bytes of `"fg+:"`.
fn prefix_color_fg_plus_vec() -> (r: Vec<u8>)
    ensures
        r@ == prefix_color_fg_plus(),
{
    let v: Vec<u8> = vec!['f' as u8, 'g' as u8, '+' as u8, ':' as u8];
    assert(v@ =~= prefix_color_fg_plus());
    v
}

/// The bytes of `"bg+:"`.
pub open spec fn prefix_color_bg_plus() -> Seq<u8> {
    seq!['b' as u8, 'g' as u8, '+' as u8, ':' as u8]
}

/// The bytes of `"bg+:"`.
fn prefix_color_bg_plus_vec() -> (r: Vec<u8>)
    ensures
        r@ == prefix_color_bg_plus(),
{
    let v: Vec<u8> = vec!['b' as u8, 'g' as u8, '+' as u8, ':' as u8];
    assert(v@ =~= prefix_color_bg_plus());
    v
}

/// The bytes of `"bg+:-1,"`.
pub open spec fn default_color_bg_plus() -> Seq<u8> {
    seq!['b' as u8, 'g' as u8, '+' as u8, ':' as u8, '-' as u8, '1' as u8, ',' as u8]
}

/// The bytes of `"bg+:-1,"`.
fn default_color_bg_plus_vec() -> (r: Vec<u8>)
    ensures
        r@ == default_color_bg_plus(),
{
    let v: Vec<u8> = vec!['b' as u8, 'g' as u8, '+' as u8, ':' as u8, '-' as u8, '1' as u8, ',' as u8];
    assert(v@ =~= default_color_bg_plus());
    v
}

/// The bytes of `"preview-fg:"`.
pub open spec fn prefix_color_preview_fg() -> Seq<u8> {
    seq![
        'p' as u8,
        'r' as u8,
        'e' as u8,
        'v' as u8,
        'i' as u8,
        'e' as u8,
        'w' as u8,
        '-' as u8,
        'f' as u8,
        'g' as u8,
        ':' as u8,
    ]
}

/// The bytes of `"preview-fg:"`.
fn prefix_color_preview_fg_vec() -> (r: Vec<u8>)
    ensures
        r@ == prefix_color_preview_fg(),
{
    let v: Vec<u8> = vec![
        'p' as u8,
        'r' as u8,
        'e' as u8,
        'v' as u8,
        'i' as u8,
        'e' as u8,
        'w' as u8,
        '-' as u8,
        'f' as u8,
        'g' as u8,
        ':' as u8,
    ];
    assert(v@ =~= prefix_color_preview_fg());
    v
}

/// The bytes of `"preview-bg:"`.
pub open spec fn prefix_color_preview_bg() -> Seq<u8> {
    seq![
        'p' as u8,
        'r' as u8,
        'e' as u8,
        'v' as u8,
        'i' as u8,
        'e' as u8,
        'w' as u8,
        '-' as u8,
        'b' as u8,
        'g' as u8,
        ':' as u8,
    ]
}

/// The bytes of `"preview-bg:"`.
fn prefix_color_preview_bg_vec() -> (r: Vec<u8>)
    ensures
        r@ == prefix_color_preview_bg(),
{
    let v: Vec<u8> = vec![
        'p' as u8,
        'r' as u8,
        'e' as u8,
        'v' as u8,
        'i' as u8,
        'e' as u8,
        'w' as u8,
        '-' as u8,
        'b' as u8,
        'g' as u8,
        ':' as u8,
    ];
    assert(v@ =~= prefix_color_preview_bg());
    v
}

/// The bytes of `"hl:"`.
pub open spec fn prefix_color_hl() -> Seq<u8> {
    seq!['h' as u8, 'l' as u8, ':' as u8]
}

/// The bytes of `"hl:"`.
fn prefix_color_hl_vec() -> (r: Vec<u8>)
    ensures
        r@ == prefix_color_hl(),
{
    let v: Vec<u8> = vec!['h' as u8, 'l' as u8, ':' as u8];
    assert(v@ =~= prefix_color_hl());
    v
}

/// The bytes of `"hl:#cccccc,"`.
pub open spec fn default_color_hl() -> Seq<u8> {
    seq![
        'h' as u8,
        'l' as u8,
        ':' as u8,
        '#' as u8,
        'c' as u8,
        'c' as u8,
        'c' as u8,
        'c' as u8,
        'c' as u8,
        'c' as u8,
        ',' as u8,
    ]
}

/// The bytes of `"hl:#cccccc,"`.
fn default_color_hl_vec() -> (r: Vec<u8>)
    ensures
        r@ == default_color_hl(),
{
    let v: Vec<u8> = vec![
        'h' as u8,
        'l' as u8,
        ':' as u8,
        '#' as u8,
        'c' as u8,
        'c' as u8,
        'c' as u8,
        'c' as u8,
        'c' as u8,
        'c' as u8,
        ',' as u8,
    ];
    assert(v@ =~= default_color_hl());
    v
}

/// The bytes of `"hl+:"`.
pub open spec fn prefix_color_hl_plus() -> Seq<u8> {
    seq!['h' as u8, 'l' as u8, '+' as u8, ':' as u8]
}

/// The bytes of `"hl+:"`.
fn prefix_color_hl_plus_vec() -> (r: Vec<u8>)
    ensures
        r@ == prefix_color_hl_plus(),
{
    let v: Vec<u8> = vec!['h' as u8, 'l' as u8, '+' as u8, ':' as u8];
    assert(v@ =~= prefix_color_hl_plus());
    v
}

/// The bytes of `"hl+:#ff0055,"`.
pub open spec fn default_color_hl_plus() -> Seq<u8> {
    seq![
        'h' as u8,
        'l' as u8,
        '+' as u8,
        ':' as u8,
        '#' as u8,
        'f' as u8,
        'f' as u8,
        '0' as u8,
        '0' as u8,
        '5' as u8,
        '5' as u8,
        ',' as u8,
    ]
}

/// The bytes of `"hl+:#ff0055,"`.
fn default_color_hl_plus_vec() -> (r: Vec<u8>)
    ensures
        r@ == default_color_hl_plus(),
{
    let v: Vec<u8> = vec![
        'h' as u8,
        'l' as u8,
        '+' as u8,
        ':' as u8,
        '#' as u8,
        'f' as u8,
        'f' as u8,
        '0' as u8,
        '0' as u8,
        '5' as u8,
        '5' as u8,
        ',' as u8,
    ];
    assert(v@ =~= default_color_hl_plus());
    v
}

/// The bytes of `"gutter:"`.
pub open spec fn prefix_color_gutter() -> Seq<u8> {
    seq!['g' as u8, 'u' as u8, 't' as u8, 't' as u8, 'e' as u8, 'r' as u8, ':' as u8]
}

/// The bytes of `"gutter:"`.
fn prefix_color_gutter_vec() -> (r: Vec<u8>)
    ensures
        r@ == prefix_color_gutter(),
{
    let v: Vec<u8> = vec!['g' as u8, 'u' as u8, 't' as u8, 't' as u8, 'e' as u8, 'r' as u8, ':' as u8];
    assert(v@ =~= prefix_color_gutter());
    v
}

/// The bytes of `"gutter:-1,"`.
pub open spec fn default_color_gutter() -> Seq<u8> {
    seq![
        'g' as u8,
        'u' as u8,
        't' as u8,
        't' as u8,
        'e' as u8,
        'r' as u8,
        ':' as u8,
        '-' as u8,
        '1' as u8,
        ',' as u8,
    ]
}

/// The bytes of `"gutter:-1,"`.
fn default_color_gutter_vec() -> (r: Vec<u8>)
    ensures
        r@ == default_color_gutter(),
{
    let v: Vec<u8> = vec![
        'g' as u8,
        'u' as u8,
        't' as u8,
        't' as u8,
        'e' as u8,
        'r' as u8,
        ':' as u8,
        '-' as u8,
        '1' as u8,
        ',' as u8,
    ];
    assert(v@ =~= default_color_gutter());
    v
}

/// The bytes of `"query:"`.
pub open spec fn prefix_color_query() -> Seq<u8> {
    seq!['q' as u8, 'u' as u8, 'e' as u8, 'r' as u8, 'y' as u8, ':' as u8]
}

/// The bytes of `"query:"`.
fn prefix_color_query_vec() -> (r: Vec<u8>)
    ensures
        r@ == prefix_color_query(),
{
    let v: Vec<u8> = vec!['q' as u8, 'u' as u8, 'e' as u8, 'r' as u8, 'y' as u8, ':' as u8];
    assert(v@ =~= prefix_color_query());
    v
}

/// The bytes of `"query:#00ff6e,"`.
pub open spec fn default_color_query() -> Seq<u8> {
    seq![
        'q' as u8,
        'u' as u8,
        'e' as u8,
        'r' as u8,
        'y' as u8,
        ':' as u8,
        '#' as u8,
        '0' as u8,
        '0' as u8,
        'f' as u8,
        'f' as u8,
        '6' as u8,
        'e' as u8,
        ',' as u8,
    ]
}

/// The bytes of `"query:#00ff6e,"`.
fn default_color_query_vec() -> (r: Vec<u8>)
    ensures
        r@ == default_color_query(),
{
    let v: Vec<u8> = vec![
        'q' as u8,
        'u' as u8,
        'e' as u8,
        'r' as u8,
        'y' as u8,
        ':' as u8,
        '#' as u8,
        '0' as u8,
        '0' as u8,
        'f' as u8,
        'f' as u8,
        '6' as u8,
        'e' as u8,
        ',' as u8,
    ];
    assert(v@ =~= default_color_query());
    v
}

/// The bytes of `"disabled:"`.
pub open spec fn prefix_color_disabled() -> Seq<u8> {
    seq![
        'd' as u8,
        'i' as u8,
        's' as u8,
        'a' as u8,
        'b' as u8,
        'l' as u8,
        'e' as u8,
        'd' as u8,
        ':' as u8,
    ]
}

/// The bytes of `"disabled:"`.
fn prefix_color_disabled_vec() -> (r: Vec<u8>)
    ensures
        r@ == prefix_color_disabled(),
{
    let v: Vec<u8> = vec![
        'd' as u8,
        'i' as u8,
        's' as u8,
        'a' as u8,
        'b' as u8,
        'l' as u8,
        'e' as u8,
        'd' as u8,
        ':' as u8,
    ];
    assert(v@ =~= prefix_color_disabled());
    v
}

/// The bytes of `"info:"`.
pub open spec fn prefix_color_info() -> Seq<u8> {
    seq!['i' as u8, 'n' as u8, 'f' as u8, 'o' as u8, ':' as u8]
}

/// The bytes of `"info:"`.
fn prefix_color_info_vec() -> (r: Vec<u8>)
    ensures
        r@ == prefix_color_info(),
{
    let v: Vec<u8> = vec!['i' as u8, 'n' as u8, 'f' as u8, 'o' as u8, ':' as u8];
    assert(v@ =~= prefix_color_info());
    v
}

/// The bytes of `"border:"`.
pub open spec fn prefix_color_border() -> Seq<u8> {
    seq!['b' as u8, 'o' as u8, 'r' as u8, 'd' as u8, 'e' as u8, 'r' as u8, ':' as u8]
}

/// The bytes of `"border:"`.
fn prefix_color_border_vec() -> (r: Vec<u8>)
    ensures
        r@ == prefix_color_border(),
{
    let v: Vec<u8> = vec!['b' as u8, 'o' as u8, 'r' as u8, 'd' as u8, 'e' as u8, 'r' as u8, ':' as u8];
    assert(v@ =~= prefix_color_border());
    v
}

/// The bytes of `"prompt:"`.
pub open spec fn prefix_color_prompt() -> Seq<u8> {
    seq!['p' as u8, 'r' as u8, 'o' as u8, 'm' as u8, 'p' as u8, 't' as u8, ':' as u8]
}

/// The bytes of `"prompt:"`.
fn prefix_color_prompt_vec() -> (r: Vec<u8>)
    ensures
        r@ == prefix_color_prompt(),
{
    let v: Vec<u8> = vec!['p' as u8, 'r' as u8, 'o' as u8, 'm' as u8, 'p' as u8, 't' as u8, ':' as u8];
    assert(v@ =~= prefix_color_prompt());
    v
}

/// The bytes of `"prompt:#00ff6e,"`.
pub open spec fn default_color_prompt() -> Seq<u8> {
    seq![
        'p' as u8,
        'r' as u8,
        'o' as u8,
        'm' as u8,
        'p' as u8,
        't' as u8,
        ':' as u8,
        '#' as u8,
        '0' as u8,
        '0' as u8,
        'f' as u8,
        'f' as u8,
        '6' as u8,
        'e' as u8,
        ',' as u8,
    ]
}

/// The bytes of `"prompt:#00ff6e,"`.
fn default_color_prompt_vec() -> (r: Vec<u8>)
    ensures
        r@ == default_color_prompt(),
{
    let v: Vec<u8> = vec![
        'p' as u8,
        'r' as u8,
        'o' as u8,
        'm' as u8,
        'p' as u8,
        't' as u8,
        ':' as u8,
        '#' as u8,
        '0' as u8,
        '0' as u8,
        'f' as u8,
        'f' as u8,
        '6' as u8,
        'e' as u8,
        ',' as u8,
    ];
    assert(v@ =~= default_color_prompt());
    v
}

/// The bytes of `"pointer:"`.
pub open spec fn prefix_color_pointer() -> Seq<u8> {
    seq!['p' as u8, 'o' as u8, 'i' as u8, 'n' as u8, 't' as u8, 'e' as u8, 'r' as u8, ':' as u8]
}

/// The bytes of `"pointer:"`.
fn prefix_color_pointer_vec() -> (r: Vec<u8>)
    ensures
        r@ == prefix_color_pointer(),
{
    let v: Vec<u8> = vec![
        'p' as u8,
        'o' as u8,
        'i' as u8,
        'n' as u8,
        't' as u8,
        'e' as u8,
        'r' as u8,
        ':' as u8,
    ];
    assert(v@ =~= prefix_color_pointer());
    v
}

/// The bytes of `"pointer:#ff0055,"`.
pub open spec fn default_color_pointer() -> Seq<u8> {
    seq![
        'p' as u8,
        'o' as u8,
        'i' as u8,
        'n' as u8,
        't' as u8,
        'e' as u8,
        'r' as u8,
        ':' as u8,
        '#' as u8,
        'f' as u8,
        'f' as u8,
        '0' as u8,
        '0' as u8,
        '5' as u8,
        '5' as u8,
        ',' as u8,
    ]
}

/// The bytes of `"pointer:#ff0055,"`.
fn default_color_pointer_vec() -> (r: Vec<u8>)
    ensures
        r@ == default_color_pointer(),
{
    let v: Vec<u8> = vec![
        'p' as u8,
        'o' as u8,
        'i' as u8,
        'n' as u8,
        't' as u8,
        'e' as u8,
        'r' as u8,
        ':' as u8,
        '#' as u8,
        'f' as u8,
        'f' as u8,
        '0' as u8,
        '0' as u8,
        '5' as u8,
        '5' as u8,
        ',' as u8,
    ];
    assert(v@ =~= default_color_pointer());
    v
}

/// The bytes of `"marker:"`.
pub open spec fn prefix_color_marker() -> Seq<u8> {
    seq!['m' as u8, 'a' as u8, 'r' as u8, 'k' as u8, 'e' as u8, 'r' as u8, ':' as u8]
}

/// The bytes of `"marker:"`.
fn prefix_color_marker_vec() -> (r: Vec<u8>)
    ensures
        r@ == prefix_color_marker(),
{
    let v: Vec<u8> = vec!['m' as u8, 'a' as u8, 'r' as u8, 'k' as u8, 'e' as u8, 'r' as u8, ':' as u8];
    assert(v@ =~= prefix_color_marker());
    v
}

/// The bytes of `"spinner:"`.
pub open spec fn prefix_color_spinner() -> Seq<u8> {
    seq!['s' as u8, 'p' as u8, 'i' as u8, 'n' as u8, 'n' as u8, 'e' as u8, 'r' as u8, ':' as u8]
}

/// The bytes of `"spinner:"`.
fn prefix_color_spinner_vec() -> (r: Vec<u8>)
    ensures
        r@ == prefix_color_spinner(),
{
    let v: Vec<u8> = vec![
        's' as u8,
        'p' as u8,
        'i' as u8,
        'n' as u8,
        'n' as u8,
        'e' as u8,
        'r' as u8,
        ':' as u8,
    ];
    assert(v@ =~= prefix_color_spinner());
    v
}

/// The bytes of `"header:"`.
pub open spec fn prefix_color_header() -> Seq<u8> {
    seq!['h' as u8, 'e' as u8, 'a' as u8, 'd' as u8, 'e' as u8, 'r' as u8, ':' as u8]
}

/// The bytes of `"header:"`.
fn prefix_color_header_vec() -> (r: Vec<u8>)
    ensures
        r@ == prefix_color_header(),
{
    let v: Vec<u8> = vec!['h' as u8, 'e' as u8, 'a' as u8, 'd' as u8, 'e' as u8, 'r' as u8, ':' as u8];
    assert(v@ =~= prefix_color_header());
    v
}

/// An argument string: the flag prefix, then the set value or its
/// default.
pub open spec fn arg_with_default(prefix: Seq<u8>, v: Option<Seq<u8>>, dflt: Seq<u8>) -> Seq<u8> {
    prefix + (match v {
        Some(x) => x,
        None => dflt,
    })
}

/// One piece of the color argument: the attribute name, the set value and
/// a comma, or the fixed default piece when the key is unset.
pub open spec fn color_piece(prefix: Seq<u8>, v: Option<Seq<u8>>, dflt: Seq<u8>) -> Seq<u8> {
    match v {
        Some(x) => prefix + x + seq![',' as u8],
        None => dflt,
    }
}

/// The color argument: the flag prefix and every piece in display order,
/// with trailing commas trimmed.
pub open spec fn color_arg_spec(c: ConfigView) -> Seq<u8> {
    trim_trailing(
        color_arg_prefix()
            + color_piece(prefix_color_fg(), c.color_fg, default_color_fg())
            + color_piece(prefix_color_bg(), c.color_bg, Seq::<u8>::empty())
            + color_piece(prefix_color_fg_plus(), c.color_fg_plus, Seq::<u8>::empty())
            + color_piece(prefix_color_bg_plus(), c.color_bg_plus, default_color_bg_plus())
            + color_piece(prefix_color_preview_fg(), c.color_preview_fg, Seq::<u8>::empty())
            + color_piece(prefix_color_preview_bg(), c.color_preview_bg, Seq::<u8>::empty())
            + color_piece(prefix_color_hl(), c.color_hl, default_color_hl())
            + color_piece(prefix_color_hl_plus(), c.color_hl_plus, default_color_hl_plus())
            + color_piece(prefix_color_gutter(), c.color_gutter, default_color_gutter())
            + color_piece(prefix_color_query(), c.color_query, default_color_query())
            + color_piece(prefix_color_disabled(), c.color_disabled, Seq::<u8>::empty())
            + color_piece(prefix_color_info(), c.color_info, Seq::<u8>::empty())
            + color_piece(prefix_color_border(), c.color_border, Seq::<u8>::empty())
            + color_piece(prefix_color_prompt(), c.color_prompt, default_color_prompt())
            + color_piece(prefix_color_pointer(), c.color_pointer, default_color_pointer())
            + color_piece(prefix_color_marker(), c.color_marker, Seq::<u8>::empty())
            + color_piece(prefix_color_spinner(), c.color_spinner, Seq::<u8>::empty())
            + color_piece(prefix_color_header(), c.color_header, Seq::<u8>::empty())
            ,
        ',' as u8,
    )
}

/// The four selector argument strings a configuration denotes.
pub open spec fn selector_args_spec(c: ConfigView) -> (Seq<u8>, Seq<u8>, Seq<u8>, Seq<u8>) {
    (
        arg_with_default(margin_arg_prefix(), c.margin, margin_default()),
        arg_with_default(padding_arg_prefix(), c.padding, padding_default()),
        arg_with_default(border_arg_prefix(), c.border, border_default()),
        color_arg_spec(c),
    )
}

/// Builds one argument string from its flag prefix and the set value or
/// its default.
fn arg_vec(prefix: &Vec<u8>, v: &Option<Vec<u8>>, dflt: &Vec<u8>) -> (r: Vec<u8>)
    ensures
        r@ == arg_with_default(prefix@, opt_view(*v), dflt@),
{
    let mut r: Vec<u8> = Vec::new();
    push_all(&mut r, prefix);
    match v {
        Some(x) => push_all(&mut r, x),
        None => push_all(&mut r, dflt),
    }
    assert(r@ =~= arg_with_default(prefix@, opt_view(*v), dflt@));
    r
}

/// Builds one piece of the color argument.
fn piece_vec(prefix: &Vec<u8>, v: &Option<Vec<u8>>, dflt: &Vec<u8>) -> (r: Vec<u8>)
    ensures
        r@ == color_piece(prefix@, opt_view(*v), dflt@),
{
    let mut r: Vec<u8> = Vec::new();
    match v {
        Some(x) => {
            push_all(&mut r, prefix);
            push_all(&mut r, x);
            r.push(',' as u8);
            assert(r@ =~= prefix@ + x@ + seq![',' as u8]);
        },
        None => {
            push_all(&mut r, dflt);
            assert(r@ =~= dflt@);
        },
    }
    r
}

/// An empty byte vector, the default piece of a color key with no
/// hardcoded fallback.
fn empty_vec() -> (r: Vec<u8>)
    ensures
        r@ == Seq::<u8>::empty(),
{
    let v: Vec<u8> = Vec::new();
    v
}

/// Renders the four selector argument strings — margin, padding, border
/// and color — from the settings, every unset key falling back to its
/// hardcoded default.
#[verifier::rlimit(100)]
pub fn render_selector_args(c: &Config) -> (r: (Vec<u8>, Vec<u8>, Vec<u8>, Vec<u8>))
    ensures
        r.0@ == selector_args_spec(c@).0,
        r.1@ == selector_args_spec(c@).1,
        r.2@ == selector_args_spec(c@).2,
        r.3@ == selector_args_spec(c@).3,
{
    let m_pre = margin_arg_prefix_vec();
    let m_dflt = margin_default_vec();
    let margin = arg_vec(&m_pre, &c.margin, &m_dflt);
    let p_pre = padding_arg_prefix_vec();
    let p_dflt = padding_default_vec();
    let padding = arg_vec(&p_pre, &c.padding, &p_dflt);
    let b_pre = border_arg_prefix_vec();
    let b_dflt = border_default_vec();
    let border = arg_vec(&b_pre, &c.border, &b_dflt);
    let mut color = color_arg_prefix_vec();
    let pre_color_fg = prefix_color_fg_vec();
    let dflt_color_fg = default_color_fg_vec();
    let piece_color_fg = piece_vec(&pre_color_fg, &c.color_fg, &dflt_color_fg);
    push_all(&mut color, &piece_color_fg);
    let pre_color_bg = prefix_color_bg_vec();
    let dflt_color_bg = empty_vec();
    let piece_color_bg = piece_vec(&pre_color_bg, &c.color_bg, &dflt_color_bg);
    push_all(&mut color, &piece_color_bg);
    let pre_color_fg_plus = prefix_color_fg_plus_vec();
    let dflt_color_fg_plus = empty_vec();
    let piece_color_fg_plus = piece_vec(&pre_color_fg_plus, &c.color_fg_plus, &dflt_color_fg_plus);
    push_all(&mut color, &piece_color_fg_plus);
    let pre_color_bg_plus = prefix_color_bg_plus_vec();
    let dflt_color_bg_plus = default_color_bg_plus_vec();
    let piece_color_bg_plus = piece_vec(&pre_color_bg_plus, &c.color_bg_plus, &dflt_color_bg_plus);
    push_all(&mut color, &piece_color_bg_plus);
    let pre_color_preview_fg = prefix_color_preview_fg_vec();
    let dflt_color_preview_fg = empty_vec();
    let piece_color_preview_fg = piece_vec(&pre_color_preview_fg, &c.color_preview_fg, &dflt_color_preview_fg);
    push_all(&mut color, &piece_color_preview_fg);
    let pre_color_preview_bg = prefix_color_preview_bg_vec();
    let dflt_color_preview_bg = empty_vec();
    let piece_color_preview_bg = piece_vec(&pre_color_preview_bg, &c.color_preview_bg, &dflt_color_preview_bg);
    push_all(&mut color, &piece_color_preview_bg);
    let pre_color_hl = prefix_color_hl_vec();
    let dflt_color_hl = default_color_hl_vec();
    let piece_color_hl = piece_vec(&pre_color_hl, &c.color_hl, &dflt_color_hl);
    push_all(&mut color, &piece_color_hl);
    let pre_color_hl_plus = prefix_color_hl_plus_vec();
    let dflt_color_hl_plus = default_color_hl_plus_vec();
    let piece_color_hl_plus = piece_vec(&pre_color_hl_plus, &c.color_hl_plus, &dflt_color_hl_plus);
    push_all(&mut color, &piece_color_hl_plus);
    let pre_color_gutter = prefix_color_gutter_vec();
    let dflt_color_gutter = default_color_gutter_vec();
    let piece_color_gutter = piece_vec(&pre_color_gutter, &c.color_gutter, &dflt_color_gutter);
    push_all(&mut color, &piece_color_gutter);
    let pre_color_query = prefix_color_query_vec();
    let dflt_color_query = default_color_query_vec();
    let piece_color_query = piece_vec(&pre_color_query, &c.color_query, &dflt_color_query);
    push_all(&mut color, &piece_color_query);
    let pre_color_disabled = prefix_color_disabled_vec();
    let dflt_color_disabled = empty_vec();
    let piece_color_disabled = piece_vec(&pre_color_disabled, &c.color_disabled, &dflt_color_disabled);
    push_all(&mut color, &piece_color_disabled);
    let pre_color_info = prefix_color_info_vec();
    let dflt_color_info = empty_vec();
    let piece_color_info = piece_vec(&pre_color_info, &c.color_info, &dflt_color_info);
    push_all(&mut color, &piece_color_info);
    let pre_color_border = prefix_color_border_vec();
    let dflt_color_border = empty_vec();
    let piece_color_border = piece_vec(&pre_color_border, &c.color_border, &dflt_color_border);
    push_all(&mut color, &piece_color_border);
    let pre_color_prompt = prefix_color_prompt_vec();
    let dflt_color_prompt = default_color_prompt_vec();
    let piece_color_prompt = piece_vec(&pre_color_prompt, &c.color_prompt, &dflt_color_prompt);
    push_all(&mut color, &piece_color_prompt);
    let pre_color_pointer = prefix_color_pointer_vec();
    let dflt_color_pointer = default_color_pointer_vec();
    let piece_color_pointer = piece_vec(&pre_color_pointer, &c.color_pointer, &dflt_color_pointer);
    push_all(&mut color, &piece_color_pointer);
    let pre_color_marker = prefix_color_marker_vec();
    let dflt_color_marker = empty_vec();
    let piece_color_marker = piece_vec(&pre_color_marker, &c.color_marker, &dflt_color_marker);
    push_all(&mut color, &piece_color_marker);
    let pre_color_spinner = prefix_color_spinner_vec();
    let dflt_color_spinner = empty_vec();
    let piece_color_spinner = piece_vec(&pre_color_spinner, &c.color_spinner, &dflt_color_spinner);
    push_all(&mut color, &piece_color_spinner);
    let pre_color_header = prefix_color_header_vec();
    let dflt_color_header = empty_vec();
    let piece_color_header = piece_vec(&pre_color_header, &c.color_header, &dflt_color_header);
    push_all(&mut color, &piece_color_header);
    let color = trim_trailing_bytes(&color, ',' as u8);
    assert(color@ == color_arg_spec(c@));
    (margin, padding, border, color)
}

/// The bytes of `"/.config"`.
pub open spec fn config_dir_suffix() -> Seq<u8> {
    seq!['/' as u8, '.' as u8, 'c' as u8, 'o' as u8, 'n' as u8, 'f' as u8, 'i' as u8, 'g' as u8]
}

/// The bytes of `"/.config"`.
fn config_dir_suffix_vec() -> (r: Vec<u8>)
    ensures
        r@ == config_dir_suffix(),
{
    let v: Vec<u8> = vec![
        '/' as u8,
        '.' as u8,
        'c' as u8,
        'o' as u8,
        'n' as u8,
        'f' as u8,
        'i' as u8,
        'g' as u8,
    ];
    assert(v@ =~= config_dir_suffix());
    v
}

/// The bytes of `"/irongen/config"`.
pub open spec fn config_file_suffix() -> Seq<u8> {
    seq![
        '/' as u8,
        'i' as u8,
        'r' as u8,
        'o' as u8,
        'n' as u8,
        'g' as u8,
        'e' as u8,
        'n' as u8,
        '/' as u8,
        'c' as u8,
        'o' as u8,
        'n' as u8,
        'f' as u8,
        'i' as u8,
        'g' as u8,
    ]
}

/// The bytes of `"/irongen/config"`.
fn config_file_suffix_vec() -> (r: Vec<u8>)
    ensures
        r@ == config_file_suffix(),
{
    let v: Vec<u8> = vec![
        '/' as u8,
        'i' as u8,
        'r' as u8,
        'o' as u8,
        'n' as u8,
        'g' as u8,
        'e' as u8,
        'n' as u8,
        '/' as u8,
        'c' as u8,
        'o' as u8,
        'n' as u8,
        'f' as u8,
        'i' as u8,
        'g' as u8,
    ];
    assert(v@ =~= config_file_suffix());
    v
}

/// The path of the optional theme configuration file: the configuration
/// home — the environment's setting when present, else `<home>/.config` —
/// with trailing slashes stripped and `/irongen/config` appended.
pub open spec fn config_path_spec(home: Seq<u8>, xdg_config_home: Option<Seq<u8>>) -> Seq<u8> {
    let ch = match xdg_config_home {
        Some(s) => s,
        None => home + config_dir_suffix(),
    };
    trim_trailing(ch, '/' as u8) + config_file_suffix()
}

/// Computes the path of the theme configuration file.
pub fn config_file_path(home: &Vec<u8>, xdg_config_home: &Option<Vec<u8>>) -> (r: Vec<u8>)
    ensures
        r@ == config_path_spec(home@, opt_view(*xdg_config_home)),
{
    let ch: Vec<u8> = match xdg_config_home {
        Some(v) => subvec(v, 0, v.len()),
        None => {
            let mut u = subvec(home, 0, home.len());
            let suffix = config_dir_suffix_vec();
            push_all(&mut u, &suffix);
            u
        },
    };
    assert(ch@ == (match opt_view(*xdg_config_home) {
        Some(s) => s,
        None => home@ + config_dir_suffix(),
    })) by {
        match xdg_config_home {
            Some(v) => {
                assert(ch@ =~= v@);
            },
            None => {
                assert(ch@ =~= home@ + config_dir_suffix());
            },
        }
    }
    let mut r = trim_trailing_bytes(&ch, '/' as u8);
    let suffix = config_file_suffix_vec();
    push_all(&mut r, &suffix);
    r
}

} // verus!
