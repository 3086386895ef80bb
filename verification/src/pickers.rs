//! The item lists of the bottom-panel pickers: the `/model` levels (recent
//! models and providers, one provider's models, one model's variants), the
//! `/connect` provider list, the session list and the approval choices.

use vstd::prelude::*;
use vstd::string::StringExecFns;
use crate::chars::{chars_eq, str_chars};
use crate::formatting::{decimal, push_decimal};
use crate::panel::{PanelEntry, PanelList};

verus! {

/// A model the picker can switch to.
#[derive(Debug, Clone, PartialEq, Eq)]
pub struct ModelPickerItem {
    pub label: String,
    pub provider: String,
    pub model_id: String,
    pub variants: Vec<ModelPickerVariantItem>,
    pub pricing: Option<String>,
    pub is_current: bool,
}

/// A variant of a model.
#[derive(Debug, Clone, PartialEq, Eq)]
pub struct ModelPickerVariantItem {
    pub label: String,
    pub variant_id: String,
}

/// A recently used model with the variant it was used with.
#[derive(Debug, Clone, PartialEq, Eq)]
pub struct RecentModel {
    pub label: String,
    pub provider: String,
    pub model_id: String,
    pub variant: Option<String>,
}

/// A provider that needs credentials before its models can be used.
#[derive(Debug, Clone, PartialEq, Eq)]
pub struct SetupProvider {
    pub provider: String,
    pub model_count: usize,
}

/// What the `/model` picker lists.
#[derive(Debug, Clone, PartialEq, Eq)]
pub struct ModelPickerData {
    pub recent: Vec<RecentModel>,
    pub ready_models: Vec<ModelPickerItem>,
    pub setup_providers: Vec<SetupProvider>,
}

/// What accepting a picker item does.
#[derive(Debug, Clone, PartialEq, Eq)]
pub enum PickerAction {
    /// Sends `"{command} {value}"`.
    Select { command: String, value: String },
    ProviderSetup { provider: String },
    OpenModelList { provider: String },
    OpenVariantPicker { provider: String, model_id: String, variants: Vec<ModelPickerVariantItem> },
    SwitchModel { provider: String, model_id: String, variant: Option<String> },
    ConnectSelect { provider: String },
    OpenWizard,
    /// A non-navigable group header.
    Header,
}

/// One row of a picker.
#[derive(Debug, Clone, PartialEq, Eq)]
pub struct PickerItem {
    pub label: String,
    pub description: String,
    pub action: PickerAction,
    pub is_current: bool,
}

/// What accepting an item does, as plain values.
pub enum ActionView {
    Select { command: Seq<char>, value: Seq<char> },
    ProviderSetup { provider: Seq<char> },
    OpenModelList { provider: Seq<char> },
    OpenVariantPicker { provider: Seq<char>, model_id: Seq<char>, variants: Seq<(Seq<char>, Seq<char>)> },
    SwitchModel { provider: Seq<char>, model_id: Seq<char>, variant: Option<Seq<char>> },
    ConnectSelect { provider: Seq<char> },
    OpenWizard,
    Header,
}

pub open spec fn opt_view(o: Option<String>) -> Option<Seq<char>> {
    match o {
        Some(s) => Some(s@),
        None => None,
    }
}

/// The variants of a model as (label, identifier) pairs.
pub open spec fn variants_view(v: Seq<ModelPickerVariantItem>) -> Seq<(Seq<char>, Seq<char>)> {
    v.map_values(|x: ModelPickerVariantItem| (x.label@, x.variant_id@))
}

pub open spec fn action_view(a: PickerAction) -> ActionView {
    match a {
        PickerAction::Select { command, value } => ActionView::Select { command: command@, value: value@ },
        PickerAction::ProviderSetup { provider } => ActionView::ProviderSetup { provider: provider@ },
        PickerAction::OpenModelList { provider } => ActionView::OpenModelList { provider: provider@ },
        PickerAction::OpenVariantPicker { provider, model_id, variants } => ActionView::OpenVariantPicker {
            provider: provider@,
            model_id: model_id@,
            variants: variants_view(variants@),
        },
        PickerAction::SwitchModel { provider, model_id, variant } => ActionView::SwitchModel {
            provider: provider@,
            model_id: model_id@,
            variant: opt_view(variant),
        },
        PickerAction::ConnectSelect { provider } => ActionView::ConnectSelect { provider: provider@ },
        PickerAction::OpenWizard => ActionView::OpenWizard,
        PickerAction::Header => ActionView::Header,
    }
}

/// A row as plain values: label, description, what accepting it does, and
/// whether it marks the current choice.
pub struct RowView {
    pub label: Seq<char>,
    pub description: Seq<char>,
    pub action: ActionView,
    pub current: bool,
}

pub open spec fn row_view(i: PickerItem) -> RowView {
    RowView { label: i.label@, description: i.description@, action: action_view(i.action), current: i.is_current }
}

fn clone_opt(o: &Option<String>) -> (r: Option<String>)
    ensures
        opt_view(r) == opt_view(*o),
{
    match o {
        Some(s) => Some(s.clone()),
        None => None,
    }
}

fn clone_variants(v: &Vec<ModelPickerVariantItem>) -> (r: Vec<ModelPickerVariantItem>)
    ensures
        variants_view(r@) == variants_view(v@),
{
    let mut r: Vec<ModelPickerVariantItem> = Vec::new();
    let mut i: usize = 0;
    proof {
        assert(variants_view(r@) =~= variants_view(v@.take(0)));
    }
    while i < v.len()
        invariant
            i <= v@.len(),
            r@.len() == i,
            variants_view(r@) == variants_view(v@.take(i as int)),
        decreases v@.len() - i,
    {
        r.push(ModelPickerVariantItem { label: v[i].label.clone(), variant_id: v[i].variant_id.clone() });
        proof {
            assert(v@.take(i + 1) =~= v@.take(i as int).push(v@[i as int]));
            assert(variants_view(r@) =~= variants_view(v@.take(i + 1))) by {
                let a = variants_view(r@);
                let b = variants_view(v@.take(i + 1));
                assert(a.len() == b.len());
                assert forall|t: int| 0 <= t < a.len() implies a[t] == b[t] by {
                    if t < i {
                        assert(a[t] == variants_view(v@.take(i as int))[t]);
                    }
                }
            }
        }
        i = i + 1;
    }
    proof {
        assert(v@.take(v@.len() as int) =~= v@);
    }
    r
}

pub open spec fn rows_view(items: Seq<PickerItem>) -> Seq<RowView> {
    items.map_values(|i: PickerItem| row_view(i))
}

/// Lexicographic order on character sequences (the order of `str`).
pub open spec fn lex_lt(a: Seq<char>, b: Seq<char>) -> bool
    decreases a.len(),
{
    if a.len() == 0 {
        b.len() > 0
    } else if b.len() == 0 {
        false
    } else if (a[0] as int) < (b[0] as int) {
        true
    } else if a[0] == b[0] {
        lex_lt(a.skip(1), b.skip(1))
    } else {
        false
    }
}

proof fn lex_lt_trans(a: Seq<char>, b: Seq<char>, c: Seq<char>)
    requires
        lex_lt(a, b),
        lex_lt(b, c),
    ensures
        lex_lt(a, c),
    decreases a.len(),
{
    if a.len() > 0 && b.len() > 0 && c.len() > 0 && a[0] == b[0] && b[0] == c[0] {
        lex_lt_trans(a.skip(1), b.skip(1), c.skip(1));
    }
}

proof fn lex_lt_total(a: Seq<char>, b: Seq<char>)
    ensures
        lex_lt(a, b) || lex_lt(b, a) || a == b,
    decreases a.len(),
{
    if a.len() > 0 && b.len() > 0 && a[0] == b[0] {
        lex_lt_total(a.skip(1), b.skip(1));
        if a.skip(1) == b.skip(1) {
            assert(a =~= seq![a[0]] + a.skip(1));
            assert(b =~= seq![b[0]] + b.skip(1));
        }
    } else if a.len() == 0 && b.len() == 0 {
        assert(a =~= b);
    } else if a.len() > 0 && b.len() > 0 {
        assert((a[0] as int) != (b[0] as int));
    }
}

proof fn lex_lt_irrefl(a: Seq<char>)
    ensures
        !lex_lt(a, a),
    decreases a.len(),
{
    if a.len() > 0 {
        lex_lt_irrefl(a.skip(1));
    }
}

fn lex_less(a: &Vec<char>, b: &Vec<char>) -> (r: bool)
    ensures
        r == lex_lt(a@, b@),
{
    let mut i: usize = 0;
    proof {
        assert(a@.skip(0) =~= a@);
        assert(b@.skip(0) =~= b@);
    }
    while i < a.len() && i < b.len() && a[i] == b[i]
        invariant
            i <= a@.len(),
            i <= b@.len(),
            lex_lt(a@, b@) == lex_lt(a@.skip(i as int), b@.skip(i as int)),
        decreases a@.len() - i,
    {
        proof {
            assert(a@.skip(i as int).skip(1) =~= a@.skip(i + 1));
            assert(b@.skip(i as int).skip(1) =~= b@.skip(i + 1));
            assert(a@.skip(i as int)[0] == a@[i as int]);
            assert(b@.skip(i as int)[0] == b@[i as int]);
        }
        i = i + 1;
    }
    proof {
        if i < a@.len() {
            assert(a@.skip(i as int)[0] == a@[i as int]);
        }
        if i < b@.len() {
            assert(b@.skip(i as int)[0] == b@[i as int]);
        }
    }
    if i == a.len() {
        i < b.len()
    } else if i == b.len() {
        false
    } else {
        a[i] < b[i]
    }
}

/// The character sequences of a list of character vectors.
pub open spec fn views(v: Seq<Vec<char>>) -> Seq<Seq<char>> {
    v.map_values(|x: Vec<char>| x@)
}

/// Strictly increasing in lexicographic order.
pub open spec fn strictly_sorted(s: Seq<Seq<char>>) -> bool {
    forall|i: int, j: int| 0 <= i < j < s.len() ==> lex_lt(#[trigger] s[i], #[trigger] s[j])
}

/// The providers of the ready models.
pub open spec fn has_provider(models: Seq<ModelPickerItem>, p: Seq<char>) -> bool {
    exists|k: int| 0 <= k < models.len() && (#[trigger] models[k]).provider@ == p
}

/// The number of ready models of provider `p`.
pub open spec fn model_count(models: Seq<ModelPickerItem>, p: Seq<char>) -> nat {
    models.filter(|m: ModelPickerItem| m.provider@ == p).len()
}

fn insert_sorted(list: &mut Vec<Vec<char>>, x: Vec<char>)
    requires
        strictly_sorted(views(old(list)@)),
    ensures
        strictly_sorted(views(final(list)@)),
        forall|p: Seq<char>|
            #[trigger] views(final(list)@).contains(p) <==> (views(old(list)@).contains(p) || p == x@),
{
    let ghost before = views(list@);
    let mut k: usize = 0;
    while k < list.len() && lex_less(&list[k], &x)
        invariant
            k <= list@.len(),
            views(list@) == before,
            strictly_sorted(before),
            forall|t: int| 0 <= t < k ==> lex_lt(#[trigger] before[t], x@),
        decreases list@.len() - k,
    {
        k = k + 1;
    }
    if k < list.len() && chars_eq(&list[k], &x) {
        proof {
            assert(before[k as int] == x@);
            assert(before.contains(x@));
        }
        return;
    }
    proof {
        if k < before.len() {
            assert(before[k as int] == list@[k as int]@);
            lex_lt_total(before[k as int], x@);
        }
    }
    list.insert(k, x);
    proof {
        let after = views(list@);
        assert(after =~= before.insert(k as int, x@));
        assert forall|i: int, j: int| 0 <= i < j < after.len() implies lex_lt(#[trigger] after[i], #[trigger] after[j]) by {
            if j < k {
            } else if i < k && j == k {
            } else if i < k && j > k {
                assert(after[j] == before[j - 1]);
                assert(lex_lt(after[i], x@));
                assert(lex_lt(x@, before[k as int]));
                if j - 1 > k {
                    lex_lt_trans(x@, before[k as int], before[j - 1]);
                }
                lex_lt_trans(after[i], x@, after[j]);
            } else if i == k {
                assert(after[j] == before[j - 1]);
                if j - 1 > k {
                    lex_lt_trans(x@, before[k as int], before[j - 1]);
                }
            } else {
                assert(after[i] == before[i - 1]);
                assert(after[j] == before[j - 1]);
            }
        }
        assert forall|p: Seq<char>| after.contains(p) <==> (before.contains(p) || p == x@) by {
            if after.contains(p) {
                let i = choose|i: int| 0 <= i < after.len() && after[i] == p;
                if i < k {
                    assert(before[i] == p);
                } else if i > k {
                    assert(before[i - 1] == p);
                }
            }
            if before.contains(p) {
                let i = choose|i: int| 0 <= i < before.len() && before[i] == p;
                if i < k {
                    assert(after[i] == p);
                } else {
                    assert(after[i + 1] == p);
                }
            }
            if p == x@ {
                assert(after[k as int] == p);
            }
        }
    }
}

/// The providers of the ready models, each once, in `str` order.
pub fn ready_providers(models: &Vec<ModelPickerItem>) -> (r: Vec<Vec<char>>)
    ensures
        strictly_sorted(views(r@)),
        forall|p: Seq<char>| views(r@).contains(p) <==> has_provider(models@, p),
{
    let mut list: Vec<Vec<char>> = Vec::new();
    let mut i: usize = 0;
    proof {
        assert(views(list@) =~= Seq::<Seq<char>>::empty());
    }
    while i < models.len()
        invariant
            i <= models@.len(),
            strictly_sorted(views(list@)),
            forall|p: Seq<char>|
                views(list@).contains(p) <==> exists|k: int|
                    0 <= k < i && (#[trigger] models@[k]).provider@ == p,
        decreases models@.len() - i,
    {
        let x = str_chars(models[i].provider.as_str());
        let ghost prev = views(list@);
        insert_sorted(&mut list, x);
        proof {
            assert forall|p: Seq<char>|
                views(list@).contains(p) <==> exists|k: int|
                    0 <= k < i + 1 && (#[trigger] models@[k]).provider@ == p by {
                if p == models@[i as int].provider@ {
                    assert(models@[i as int].provider@ == p);
                }
                if exists|k: int| 0 <= k < i + 1 && (#[trigger] models@[k]).provider@ == p {
                    let k = choose|k: int| 0 <= k < i + 1 && (#[trigger] models@[k]).provider@ == p;
                    if k < i {
                        assert(prev.contains(p));
                    }
                }
            }
        }
        i = i + 1;
    }
    list
}

fn string_of(chars: &Vec<char>) -> (s: String)
    ensures
        s@ == chars@,
{
    let mut s = String::new();
    let mut k: usize = 0;
    while k < chars.len()
        invariant
            k <= chars@.len(),
            s@ == chars@.take(k as int),
        decreases chars@.len() - k,
    {
        s.push(chars[k]);
        proof {
            assert(chars@.take(k + 1) =~= chars@.take(k as int).push(chars@[k as int]));
        }
        k = k + 1;
    }
    proof {
        assert(chars@.take(chars@.len() as int) =~= chars@);
    }
    s
}

fn header(label: &str) -> (item: PickerItem)
    ensures
        row_view(item) == (RowView { label: label@, description: Seq::empty(), action: ActionView::Header, current: false }),
{
    PickerItem { label: String::from_str(label), description: String::new(), action: PickerAction::Header, is_current: false }
}

/// `"N model"` or `"N models"`.
pub open spec fn models_word(n: nat) -> Seq<char> {
    decimal(n) + " model"@ + (if n == 1 { Seq::<char>::empty() } else { seq!['s'] })
}

fn push_models_word(s: &mut String, n: usize)
    ensures
        final(s)@ == old(s)@ + models_word(n as nat),
{
    push_decimal(s, n as u64);
    s.append(" model");
    if n != 1 {
        s.push('s');
    }
    proof {
        assert(final(s)@ =~= old(s)@ + models_word(n as nat));
    }
}

/// Accepting a recent model switches to it with the variant it was used with.
pub open spec fn recent_action(m: RecentModel) -> ActionView {
    ActionView::SwitchModel { provider: m.provider@, model_id: m.model_id@, variant: opt_view(m.variant) }
}

/// Accepting a ready model switches to it when it has no variants, and
/// opens its variants otherwise.
pub open spec fn model_action(m: ModelPickerItem) -> ActionView {
    if m.variants@.len() == 0 {
        ActionView::SwitchModel { provider: m.provider@, model_id: m.model_id@, variant: None }
    } else {
        ActionView::OpenVariantPicker { provider: m.provider@, model_id: m.model_id@, variants: variants_view(m.variants@) }
    }
}

/// The level-one rows of the `/model` picker: a "Recent" group of recent
/// models (each switching directly), a "Providers" group with one row per
/// provider of the ready models in `str` order with its model count, and a
/// "Setup required" group for providers that need credentials; empty
/// groups are left out.
pub open spec fn model_picker_rows(data: ModelPickerData, providers: Seq<Seq<char>>) -> Seq<RowView> {
    let recent = data.recent@;
    let setup = data.setup_providers@;
    let models = data.ready_models@;
    (if recent.len() > 0 {
        seq![RowView { label: "Recent"@, description: Seq::empty(), action: ActionView::Header, current: false }]
            + Seq::new(
            recent.len(),
            |i: int| RowView { label: recent[i].label@, description: recent[i].provider@, action: recent_action(recent[i]), current: false },
        )
    } else {
        Seq::empty()
    }) + (if providers.len() > 0 {
        seq![RowView { label: "Providers"@, description: Seq::empty(), action: ActionView::Header, current: false }]
            + Seq::new(
            providers.len(),
            |i: int|
                RowView {
                    label: providers[i],
                    description: models_word(model_count(models, providers[i])),
                    action: ActionView::OpenModelList { provider: providers[i] },
                    current: false,
                },
        )
    } else {
        Seq::empty()
    }) + (if setup.len() > 0 {
        seq![RowView { label: "Setup required"@, description: Seq::empty(), action: ActionView::Header, current: false }]
            + Seq::new(
            setup.len(),
            |i: int|
                RowView {
                    label: setup[i].provider@ + "   ("@ + models_word(setup[i].model_count as nat) + ")"@,
                    description: "Use /connect to set up"@,
                    action: ActionView::ProviderSetup { provider: setup[i].provider@ },
                    current: false,
                },
        )
    } else {
        Seq::empty()
    })
}

fn count_models(models: &Vec<ModelPickerItem>, p: &Vec<char>) -> (n: usize)
    ensures
        n == model_count(models@, p@),
{
    let mut n: usize = 0;
    let mut i: usize = 0;
    while i < models.len()
        invariant
            i <= models@.len(),
            n == models@.take(i as int).filter(|m: ModelPickerItem| m.provider@ == p@).len(),
            n <= i,
        decreases models@.len() - i,
    {
        proof {
            assert(models@.take(i + 1) =~= models@.take(i as int).push(models@[i as int]));
            models@.take(i as int).lemma_filter_len_push(|m: ModelPickerItem| m.provider@ == p@, models@[i as int]);
        }
        let c = str_chars(models[i].provider.as_str());
        if chars_eq(&c, p) {
            n = n + 1;
        }
        i = i + 1;
    }
    proof {
        assert(models@.take(models@.len() as int) =~= models@);
    }
    n
}

/// The index of the first row that is not a header, or zero.
pub fn initial_index(items: &Vec<PickerItem>) -> (k: usize)
    ensures
        k == 0 || (k < items@.len() && !(items@[k as int].action is Header)),
        forall|t: int| 0 <= t < k ==> (#[trigger] items@[t]).action is Header,
        k == 0 && items@.len() > 0 && items@[0].action is Header ==> forall|t: int|
            0 <= t < items@.len() ==> (#[trigger] items@[t]).action is Header,
{
    let mut k: usize = 0;
    while k < items.len()
        invariant
            k <= items@.len(),
            forall|t: int| 0 <= t < k ==> (#[trigger] items@[t]).action is Header,
        decreases items@.len() - k,
    {
        let is_header = match items[k].action {
            PickerAction::Header => true,
            _ => false,
        };
        if !is_header {
            return k;
        }
        k = k + 1;
    }
    0
}

/// Builds the level-one rows of the `/model` picker (see
/// `model_picker_rows`) and the initially selected row: the first that is
/// not a header.
pub fn open_model_picker(data: &ModelPickerData) -> (r: (Vec<PickerItem>, usize))
    ensures
        rows_view(r.0@) == model_picker_rows(*data, provider_order(data.ready_models@)),
        strictly_sorted_providers_exist(data.ready_models@),
        r.1 == 0 || (r.1 < r.0@.len() && !(r.0@[r.1 as int].action is Header)),
        forall|t: int| 0 <= t < r.1 ==> (#[trigger] r.0@[t]).action is Header,
        r.1 == 0 && r.0@.len() > 0 && r.0@[0].action is Header ==> forall|t: int|
            0 <= t < r.0@.len() ==> (#[trigger] r.0@[t]).action is Header,
{
    let mut items: Vec<PickerItem> = Vec::new();
    let recent = &data.recent;
    if recent.len() > 0 {
        items.push(header("Recent"));
        let mut i: usize = 0;
        while i < recent.len()
            invariant
                i <= recent@.len(),
                recent == &data.recent,
                recent@.len() > 0,
                rows_view(items@) == seq![RowView { label: "Recent"@, description: Seq::empty(), action: ActionView::Header, current: false }]
                    + Seq::new(
                    i as nat,
                    |t: int| RowView { label: recent@[t].label@, description: recent@[t].provider@, action: recent_action(recent@[t]), current: false },
                ),
            decreases recent@.len() - i,
        {
            let m = &recent[i];
            let ghost before = rows_view(items@);
            items.push(
                PickerItem {
                    label: m.label.clone(),
                    description: m.provider.clone(),
                    action: PickerAction::SwitchModel {
                        provider: m.provider.clone(),
                        model_id: m.model_id.clone(),
                        variant: clone_opt(&m.variant),
                    },
                    is_current: false,
                },
            );
            proof {
                assert(rows_view(items@) =~= before.push(rows_view(items@).last()));
                assert(rows_view(items@) =~= seq![RowView { label: "Recent"@, description: Seq::empty(), action: ActionView::Header, current: false }]
                    + Seq::new(
                    (i + 1) as nat,
                    |t: int| RowView { label: recent@[t].label@, description: recent@[t].provider@, action: recent_action(recent@[t]), current: false },
                ));
            }
            i = i + 1;
        }
    }
    let ghost part1 = rows_view(items@);
    let providers = ready_providers(&data.ready_models);
    let ghost pv = views(providers@);
    if providers.len() > 0 {
        items.push(header("Providers"));
        let mut i: usize = 0;
        while i < providers.len()
            invariant
                i <= providers@.len(),
                pv == views(providers@),
                rows_view(items@) == part1 + seq![RowView { label: "Providers"@, description: Seq::empty(), action: ActionView::Header, current: false }]
                    + Seq::new(
                    i as nat,
                    |t: int| RowView { label: pv[t], description: models_word(model_count(data.ready_models@, pv[t])), action: ActionView::OpenModelList { provider: pv[t] }, current: false },
                ),
            decreases providers@.len() - i,
        {
            let name = string_of(&providers[i]);
            let count = count_models(&data.ready_models, &providers[i]);
            let mut description = String::new();
            push_models_word(&mut description, count);
            let ghost before = rows_view(items@);
            items.push(
                PickerItem {
                    label: name.clone(),
                    description,
                    action: PickerAction::OpenModelList { provider: name },
                    is_current: false,
                },
            );
            proof {
                assert(pv[i as int] == providers@[i as int]@);
                assert(rows_view(items@) =~= before.push(rows_view(items@).last()));
                assert(rows_view(items@) =~= part1 + seq![RowView { label: "Providers"@, description: Seq::empty(), action: ActionView::Header, current: false }]
                    + Seq::new(
                    (i + 1) as nat,
                    |t: int| RowView { label: pv[t], description: models_word(model_count(data.ready_models@, pv[t])), action: ActionView::OpenModelList { provider: pv[t] }, current: false },
                ));
            }
            i = i + 1;
        }
    }
    let ghost part2 = rows_view(items@);
    let setup = &data.setup_providers;
    if setup.len() > 0 {
        items.push(header("Setup required"));
        let mut i: usize = 0;
        while i < setup.len()
            invariant
                i <= setup@.len(),
                setup == &data.setup_providers,
                rows_view(items@) == part2 + seq![RowView { label: "Setup required"@, description: Seq::empty(), action: ActionView::Header, current: false }]
                    + Seq::new(
                    i as nat,
                    |t: int|
                        RowView {
                            label: setup@[t].provider@ + "   ("@ + models_word(setup@[t].model_count as nat) + ")"@,
                            description: "Use /connect to set up"@,
                            action: ActionView::ProviderSetup { provider: setup@[t].provider@ },
                            current: false,
                        },
                ),
            decreases setup@.len() - i,
        {
            let p = &setup[i];
            let mut label = p.provider.clone();
            label.append("   (");
            push_models_word(&mut label, p.model_count);
            label.append(")");
            let ghost before = rows_view(items@);
            items.push(
                PickerItem {
                    label,
                    description: String::from_str("Use /connect to set up"),
                    action: PickerAction::ProviderSetup { provider: p.provider.clone() },
                    is_current: false,
                },
            );
            proof {
                assert(rows_view(items@) =~= before.push(rows_view(items@).last()));
                assert(rows_view(items@) =~= part2 + seq![RowView { label: "Setup required"@, description: Seq::empty(), action: ActionView::Header, current: false }]
                    + Seq::new(
                    (i + 1) as nat,
                    |t: int|
                        RowView {
                            label: setup@[t].provider@ + "   ("@ + models_word(setup@[t].model_count as nat) + ")"@,
                            description: "Use /connect to set up"@,
                            action: ActionView::ProviderSetup { provider: setup@[t].provider@ },
                            current: false,
                        },
                ));
            }
            i = i + 1;
        }
    }
    proof {
        assert(strictly_sorted(pv) && forall|x: Seq<char>| pv.contains(x) <==> has_provider(data.ready_models@, x));
        let providers_spec = provider_order(data.ready_models@);
        sorted_sets_unique(pv, providers_spec);
        assert(rows_view(items@) =~= model_picker_rows(*data, pv));
    }
    let k = initial_index(&items);
    (items, k)
}

/// The providers of the ready models, each once, in `str` order (the one
/// strictly sorted list holding exactly them).
pub open spec fn provider_order(models: Seq<ModelPickerItem>) -> Seq<Seq<char>> {
    choose|p: Seq<Seq<char>>| strictly_sorted(p) && forall|x: Seq<char>| p.contains(x) <==> has_provider(models, x)
}

/// Some strictly sorted list holds exactly the providers of the models.
pub open spec fn strictly_sorted_providers_exist(models: Seq<ModelPickerItem>) -> bool {
    exists|p: Seq<Seq<char>>| strictly_sorted(p) && forall|x: Seq<char>| p.contains(x) <==> has_provider(models, x)
}

/// Two strictly sorted lists with the same elements are equal.
proof fn sorted_sets_unique(a: Seq<Seq<char>>, b: Seq<Seq<char>>)
    requires
        strictly_sorted(a),
        strictly_sorted(b),
        forall|x: Seq<char>| a.contains(x) <==> b.contains(x),
    ensures
        a == b,
    decreases a.len() + b.len(),
{
    if a.len() == 0 {
        if b.len() > 0 {
            assert(b.contains(b[0]));
        }
        assert(a =~= b);
    } else if b.len() == 0 {
        assert(a.contains(a[0]));
    } else {
        // The first elements are the least, so they agree.
        assert(a.contains(a[0]));
        assert(b.contains(b[0]));
        let ia = choose|i: int| 0 <= i < a.len() && a[i] == b[0];
        let ib = choose|i: int| 0 <= i < b.len() && b[i] == a[0];
        if ia > 0 {
            assert(lex_lt(a[0], a[ia]));
            if ib > 0 {
                assert(lex_lt(b[0], b[ib]));
                lex_lt_trans(a[0], b[0], a[0]);
                lex_lt_irrefl(a[0]);
            } else {
                lex_lt_irrefl(a[0]);
            }
        }
        assert(a[0] == b[0]);
        let a1 = a.skip(1);
        let b1 = b.skip(1);
        assert forall|x: Seq<char>| a1.contains(x) <==> b1.contains(x) by {
            if a1.contains(x) {
                let i = choose|i: int| 0 <= i < a1.len() && a1[i] == x;
                assert(a[i + 1] == x);
                assert(a.contains(x));
                let j = choose|j: int| 0 <= j < b.len() && b[j] == x;
                if j == 0 {
                    assert(lex_lt(a[0], a[i + 1]));
                    lex_lt_irrefl(x);
                }
                assert(b1[j - 1] == x);
            }
            if b1.contains(x) {
                let i = choose|i: int| 0 <= i < b1.len() && b1[i] == x;
                assert(b[i + 1] == x);
                assert(b.contains(x));
                let j = choose|j: int| 0 <= j < a.len() && a[j] == x;
                if j == 0 {
                    assert(lex_lt(b[0], b[i + 1]));
                    lex_lt_irrefl(x);
                }
                assert(a1[j - 1] == x);
            }
        }
        assert forall|i: int, j: int| 0 <= i < j < a1.len() implies lex_lt(#[trigger] a1[i], #[trigger] a1[j]) by {
            assert(a1[i] == a[i + 1] && a1[j] == a[j + 1]);
        }
        assert forall|i: int, j: int| 0 <= i < j < b1.len() implies lex_lt(#[trigger] b1[i], #[trigger] b1[j]) by {
            assert(b1[i] == b[i + 1] && b1[j] == b[j + 1]);
        }
        sorted_sets_unique(a1, b1);
        assert(a =~= seq![a[0]] + a1);
        assert(b =~= seq![b[0]] + b1);
    }
}

/// The rows of one provider's models: each model's label, its pricing (or
/// nothing) and whether it is the current model, in the order given.
pub open spec fn model_list_rows(provider: Seq<char>, models: Seq<ModelPickerItem>) -> Seq<RowView> {
    let mine = models.filter(|m: ModelPickerItem| m.provider@ == provider);
    Seq::new(
        mine.len(),
        |i: int|
            RowView {
                label: mine[i].label@,
                description: match mine[i].pricing {
                    Some(p) => p@,
                    None => Seq::empty(),
                },
                action: model_action(mine[i]),
                current: mine[i].is_current,
            },
    )
}

/// Level two of the `/model` picker: the ready models of `provider`; a
/// model with variants opens level three, one without switches directly.
/// The initial selection is the first model that is not the current one.
pub fn open_model_list(provider: &str, data: &ModelPickerData) -> (r: (Vec<PickerItem>, usize))
    ensures
        rows_view(r.0@) == model_list_rows(provider@, data.ready_models@),
        r.1 == 0 || r.1 < r.0@.len(),
        r.1 < r.0@.len() ==> !r.0@[r.1 as int].is_current || forall|t: int| 0 <= t < r.0@.len() ==> (#[trigger] r.0@[t]).is_current,
        forall|t: int| 0 <= t < r.1 ==> (#[trigger] r.0@[t]).is_current,
{
    let wanted = str_chars(provider);
    let models = &data.ready_models;
    let ghost pred = |m: ModelPickerItem| m.provider@ == provider@;
    let mut items: Vec<PickerItem> = Vec::new();
    let mut i: usize = 0;
    while i < models.len()
        invariant
            i <= models@.len(),
            models == &data.ready_models,
            wanted@ == provider@,
            pred == (|m: ModelPickerItem| m.provider@ == provider@),
            rows_view(items@) == model_list_rows(provider@, models@.take(i as int)),
            forall|t: int| 0 <= t < items@.len() ==> ((#[trigger] items@[t]).action is SwitchModel || items@[t].action is OpenVariantPicker),
        decreases models@.len() - i,
    {
        let m = &models[i];
        let c = str_chars(m.provider.as_str());
        let ghost before = rows_view(items@);
        proof {
            assert(models@.take(i + 1) =~= models@.take(i as int).push(models@[i as int]));
            models@.take(i as int).lemma_filter_push(models@[i as int], |m: ModelPickerItem| m.provider@ == provider@);
        }
        if chars_eq(&c, &wanted) {
            let action = if m.variants.len() == 0 {
                PickerAction::SwitchModel { provider: m.provider.clone(), model_id: m.model_id.clone(), variant: None }
            } else {
                PickerAction::OpenVariantPicker {
                    provider: m.provider.clone(),
                    model_id: m.model_id.clone(),
                    variants: clone_variants(&m.variants),
                }
            };
            let description = match &m.pricing {
                Some(p) => p.clone(),
                None => String::new(),
            };
            items.push(PickerItem { label: m.label.clone(), description, action, is_current: m.is_current });
            proof {
                let mine = models@.take(i as int).filter(|m: ModelPickerItem| m.provider@ == provider@);
                let mine2 = models@.take(i + 1).filter(|m: ModelPickerItem| m.provider@ == provider@);
                assert(m.provider@ == provider@);
                assert(mine2 == mine.push(models@[i as int]));
                let expected = RowView {
                    label: m.label@,
                    description: match &m.pricing {
                        Some(p) => p@,
                        None => Seq::empty(),
                    },
                    action: model_action(*m),
                    current: m.is_current,
                };
                assert(row_view(items@.last()) == expected);
                assert(rows_view(items@) =~= before.push(expected));
                let target = model_list_rows(provider@, models@.take(i + 1));
                assert(target.len() == before.len() + 1);
                assert forall|t: int| 0 <= t < target.len() implies #[trigger] target[t] == before.push(expected)[t] by {
                    if t < before.len() {
                        assert(mine2[t] == mine[t]);
                    }
                }
                assert(rows_view(items@) =~= model_list_rows(provider@, models@.take(i + 1)));
            }
        } else {
            proof {
                assert(rows_view(items@) =~= model_list_rows(provider@, models@.take(i + 1)));
            }
        }
        i = i + 1;
    }
    proof {
        assert(models@.take(models@.len() as int) =~= models@);
    }
    let mut k: usize = 0;
    while k < items.len() && items[k].is_current
        invariant
            k <= items@.len(),
            forall|t: int| 0 <= t < k ==> (#[trigger] items@[t]).is_current,
        decreases items@.len() - k,
    {
        k = k + 1;
    }
    if k == items.len() {
        k = 0;
    }
    (items, k)
}

/// A variant of a model as a picker row: its label, its identifier, and a
/// switch to the model with that variant.
pub open spec fn variant_row(provider: Seq<char>, model_id: Seq<char>, v: ModelPickerVariantItem) -> RowView {
    RowView {
        label: v.label@,
        description: v.variant_id@,
        action: ActionView::SwitchModel { provider, model_id, variant: Some(v.variant_id@) },
        current: false,
    }
}

/// The rows of the variant picker (see `variant_row`), in the order given.
pub fn open_variant_picker(provider: &str, model_id: &str, variants: &Vec<ModelPickerVariantItem>) -> (r: Vec<PickerItem>)
    ensures
        r@.len() == variants@.len(),
        forall|i: int| 0 <= i < r@.len() ==> row_view(#[trigger] r@[i]) == variant_row(provider@, model_id@, variants@[i]),
{
    let mut items: Vec<PickerItem> = Vec::new();
    let mut i: usize = 0;
    while i < variants.len()
        invariant
            i <= variants@.len(),
            items@.len() == i,
            forall|t: int| 0 <= t < i ==> row_view(#[trigger] items@[t]) == variant_row(provider@, model_id@, variants@[t]),
        decreases variants@.len() - i,
    {
        let v = &variants[i];
        items.push(
            PickerItem {
                label: v.label.clone(),
                description: v.variant_id.clone(),
                action: PickerAction::SwitchModel {
                    provider: String::from_str(provider),
                    model_id: String::from_str(model_id),
                    variant: Some(v.variant_id.clone()),
                },
                is_current: false,
            },
        );
        i = i + 1;
    }
    items
}

/// A stored session offered by `/resume`.
#[derive(Debug, Clone, PartialEq, Eq)]
pub struct SessionPickerItem {
    pub ordinal: usize,
    pub timestamp: String,
    pub message_count: usize,
    pub preview: String,
    pub command: String,
}

/// The row of a session: `"N. <time> — M messages"`, the quoted preview
/// (or `(empty)`), and a command resuming session `N`.
pub open spec fn session_row(s: SessionPickerItem) -> RowView {
    RowView {
        label: decimal(s.ordinal as nat) + ". "@ + s.timestamp@ + " — "@ + decimal(s.message_count as nat)
            + " messages"@,
        description: if s.preview@.len() == 0 { "(empty)"@ } else { "\""@ + s.preview@ + "\""@ },
        action: ActionView::Select {
            command: if s.command@.len() == 0 { "/resume"@ } else { s.command@ },
            value: decimal(s.ordinal as nat),
        },
        current: false,
    }
}

/// The session picker rows (see `session_row`); each sends its command
/// (`/resume` when none is given) with the session's number.
pub fn open_session_picker(sessions: &Vec<SessionPickerItem>) -> (r: Vec<PickerItem>)
    ensures
        r@.len() == sessions@.len(),
        forall|i: int|
            0 <= i < r@.len() ==> row_view(#[trigger] r@[i]) == session_row(sessions@[i]) && r@[i].action is Select
                && r@[i].action->Select_value@ == decimal(sessions@[i].ordinal as nat) && r@[i].action->Select_command@
                == (if sessions@[i].command@.len() == 0 { "/resume"@ } else { sessions@[i].command@ }),
{
    let mut items: Vec<PickerItem> = Vec::new();
    let mut i: usize = 0;
    while i < sessions.len()
        invariant
            i <= sessions@.len(),
            items@.len() == i,
            forall|t: int|
                0 <= t < i ==> row_view(#[trigger] items@[t]) == session_row(sessions@[t]) && items@[t].action is Select
                    && items@[t].action->Select_value@ == decimal(sessions@[t].ordinal as nat)
                    && items@[t].action->Select_command@ == (if sessions@[t].command@.len() == 0 {
                    "/resume"@
                } else {
                    sessions@[t].command@
                }),
        decreases sessions@.len() - i,
    {
        let s = &sessions[i];
        let mut label = String::new();
        push_decimal(&mut label, s.ordinal as u64);
        label.append(". ");
        label.append(s.timestamp.as_str());
        label.append(" — ");
        push_decimal(&mut label, s.message_count as u64);
        label.append(" messages");
        let description = if s.preview.as_str().is_empty() {
            String::from_str("(empty)")
        } else {
            let mut d = String::from_str("\"");
            d.append(s.preview.as_str());
            d.append("\"");
            d
        };
        let command = if s.command.as_str().is_empty() {
            String::from_str("/resume")
        } else {
            s.command.clone()
        };
        let mut value = String::new();
        push_decimal(&mut value, s.ordinal as u64);
        proof {
            assert(value@ =~= decimal(s.ordinal as nat));
        }
        items.push(PickerItem { label, description, action: PickerAction::Select { command, value }, is_current: false });
        proof {
            assert(row_view(items@[i as int]) == session_row(sessions@[i as int]));
        }
        i = i + 1;
    }
    items
}

/// The row of an approval choice: its label and the value it sends.
pub open spec fn approval_row(label: Seq<char>, value: Seq<char>) -> RowView {
    RowView { label, description: Seq::empty(), action: ActionView::Select { command: Seq::empty(), value }, current: false }
}

/// The approval choices: approve once, always approve, deny.
pub open spec fn approval_rows() -> Seq<RowView> {
    seq![
        approval_row("[y] approve"@, "approve"@),
        approval_row("[a] always approve"@, "always"@),
        approval_row("[n] deny"@, "deny"@),
    ]
}

fn approval_item(label: &str, value: &str) -> (item: PickerItem)
    ensures
        row_view(item) == approval_row(label@, value@),
{
    PickerItem {
        label: String::from_str(label),
        description: String::new(),
        action: PickerAction::Select { command: String::new(), value: String::from_str(value) },
        is_current: false,
    }
}

/// The rows of the approval prompt (see `approval_rows`).
pub fn open_approval() -> (r: Vec<PickerItem>)
    ensures
        rows_view(r@) == approval_rows(),
{
    let items = vec![
        approval_item("[y] approve", "approve"),
        approval_item("[a] always approve", "always"),
        approval_item("[n] deny", "deny"),
    ];
    proof {
        assert(rows_view(items@) =~= approval_rows());
    }
    items
}

/// A provider that is already connected.
#[derive(Debug, Clone, PartialEq, Eq)]
pub struct ConnectedProvider {
    pub name: String,
    pub provider: String,
    pub model_count: usize,
    pub has_credential: bool,
    pub api_base_url: Option<String>,
}

/// A provider that can be connected.
#[derive(Debug, Clone, PartialEq, Eq)]
pub struct AvailableProvider {
    pub name: String,
    pub provider: String,
    pub model_count: usize,
    pub api_base_url: Option<String>,
}

/// What the `/connect` picker lists.
#[derive(Debug, Clone, PartialEq, Eq)]
pub struct ConnectPickerData {
    pub connected: Vec<ConnectedProvider>,
    pub available: Vec<AvailableProvider>,
}

/// The text of an optional string, or `fallback` when there is none.
pub open spec fn opt_text(o: Option<String>, fallback: Seq<char>) -> Seq<char> {
    match o {
        Some(s) => s@,
        None => fallback,
    }
}

/// `"N models"`, then the credential note and the base URL where there are
/// any, each after three spaces.
pub open spec fn connected_description(p: ConnectedProvider) -> Seq<char> {
    let cred = if p.has_credential { "credential present"@ } else { Seq::<char>::empty() };
    let url = opt_text(p.api_base_url, Seq::empty());
    let count = decimal(p.model_count as nat) + " models"@;
    if cred.len() == 0 && url.len() == 0 {
        count
    } else if url.len() == 0 {
        count + "   "@ + cred
    } else {
        count + "   "@ + cred + "   "@ + url
    }
}

pub open spec fn connected_row(p: ConnectedProvider) -> RowView {
    RowView {
        label: p.name@ + "   "@ + p.provider@,
        description: connected_description(p),
        action: ActionView::ConnectSelect { provider: p.provider@ },
        current: false,
    }
}

pub open spec fn available_row(p: AvailableProvider) -> RowView {
    RowView {
        label: p.name@ + "   "@ + p.provider@,
        description: decimal(p.model_count as nat) + " models   "@ + opt_text(p.api_base_url, "—"@),
        action: ActionView::ConnectSelect { provider: p.provider@ },
        current: false,
    }
}

pub open spec fn wizard_row() -> RowView {
    RowView {
        label: "Add custom provider"@,
        description: "Register an OpenAI-compatible or Anthropic-compatible gateway"@,
        action: ActionView::OpenWizard,
        current: false,
    }
}

pub open spec fn header_row(label: Seq<char>) -> RowView {
    RowView { label, description: Seq::empty(), action: ActionView::Header, current: false }
}

/// The `/connect` rows: the custom-provider wizard, then a "Connected" and
/// an "Available" group, each left out when empty.
pub open spec fn connect_rows(data: ConnectPickerData) -> Seq<RowView> {
    let connected = data.connected@;
    let available = data.available@;
    seq![wizard_row()] + (if connected.len() > 0 {
        seq![header_row("Connected"@)] + connected.map_values(|p: ConnectedProvider| connected_row(p))
    } else {
        Seq::empty()
    }) + (if available.len() > 0 {
        seq![header_row("Available"@)] + available.map_values(|p: AvailableProvider| available_row(p))
    } else {
        Seq::empty()
    })
}

fn connected_item(p: &ConnectedProvider) -> (item: PickerItem)
    ensures
        row_view(item) == connected_row(*p),
{
    let mut label = p.name.clone();
    label.append("   ");
    label.append(p.provider.as_str());
    let mut description = String::new();
    push_decimal(&mut description, p.model_count as u64);
    description.append(" models");
    let url_empty = match &p.api_base_url {
        Some(u) => u.as_str().is_empty(),
        None => true,
    };
    if !p.has_credential && url_empty {
    } else if url_empty {
        description.append("   ");
        description.append("credential present");
    } else {
        description.append("   ");
        if p.has_credential {
            description.append("credential present");
        }
        description.append("   ");
        match &p.api_base_url {
            Some(u) => description.append(u.as_str()),
            None => {},
        }
    }
    proof {
        reveal_strlit("credential present");
        assert(label@ =~= p.name@ + "   "@ + p.provider@);
        assert(description@ =~= connected_description(*p));
    }
    PickerItem { label, description, action: PickerAction::ConnectSelect { provider: p.provider.clone() }, is_current: false }
}

fn available_item(p: &AvailableProvider) -> (item: PickerItem)
    ensures
        row_view(item) == available_row(*p),
{
    let mut label = p.name.clone();
    label.append("   ");
    label.append(p.provider.as_str());
    let mut description = String::new();
    push_decimal(&mut description, p.model_count as u64);
    description.append(" models   ");
    match &p.api_base_url {
        Some(u) => description.append(u.as_str()),
        None => description.append("—"),
    }
    proof {
        assert(label@ =~= p.name@ + "   "@ + p.provider@);
        assert(description@ =~= decimal(p.model_count as nat) + " models   "@ + opt_text(p.api_base_url, "—"@));
    }
    PickerItem { label, description, action: PickerAction::ConnectSelect { provider: p.provider.clone() }, is_current: false }
}

/// The `/connect` picker rows (see `connect_rows`) and the initial
/// selection, the wizard row.
pub fn open_connect_picker(data: &ConnectPickerData) -> (r: (Vec<PickerItem>, usize))
    ensures
        rows_view(r.0@) == connect_rows(*data),
        r.1 == 0,
{
    let mut items: Vec<PickerItem> = Vec::new();
    items.push(
        PickerItem {
            label: String::from_str("Add custom provider"),
            description: String::from_str("Register an OpenAI-compatible or Anthropic-compatible gateway"),
            action: PickerAction::OpenWizard,
            is_current: false,
        },
    );
    proof {
        assert(rows_view(items@) =~= seq![wizard_row()]);
    }
    let ghost part0 = rows_view(items@);
    let connected = &data.connected;
    if connected.len() > 0 {
        items.push(header("Connected"));
        let mut i: usize = 0;
        proof {
            assert(rows_view(items@) =~= part0 + seq![header_row("Connected"@)] + connected@.take(0).map_values(
                |p: ConnectedProvider| connected_row(p),
            ));
        }
        while i < connected.len()
            invariant
                i <= connected@.len(),
                connected == &data.connected,
                rows_view(items@) == part0 + seq![header_row("Connected"@)] + connected@.take(i as int).map_values(
                    |p: ConnectedProvider| connected_row(p),
                ),
            decreases connected@.len() - i,
        {
            let ghost before = rows_view(items@);
            items.push(connected_item(&connected[i]));
            proof {
                assert(connected@.take(i + 1) =~= connected@.take(i as int).push(connected@[i as int]));
                assert(rows_view(items@) =~= before.push(connected_row(connected@[i as int])));
                assert(rows_view(items@) =~= part0 + seq![header_row("Connected"@)] + connected@.take(i + 1).map_values(
                    |p: ConnectedProvider| connected_row(p),
                ));
            }
            i = i + 1;
        }
        proof {
            assert(connected@.take(connected@.len() as int) =~= connected@);
        }
    }
    let ghost part1 = rows_view(items@);
    let available = &data.available;
    if available.len() > 0 {
        items.push(header("Available"));
        let mut i: usize = 0;
        proof {
            assert(rows_view(items@) =~= part1 + seq![header_row("Available"@)] + available@.take(0).map_values(
                |p: AvailableProvider| available_row(p),
            ));
        }
        while i < available.len()
            invariant
                i <= available@.len(),
                available == &data.available,
                rows_view(items@) == part1 + seq![header_row("Available"@)] + available@.take(i as int).map_values(
                    |p: AvailableProvider| available_row(p),
                ),
            decreases available@.len() - i,
        {
            let ghost before = rows_view(items@);
            items.push(available_item(&available[i]));
            proof {
                assert(available@.take(i + 1) =~= available@.take(i as int).push(available@[i as int]));
                assert(rows_view(items@) =~= before.push(available_row(available@[i as int])));
                assert(rows_view(items@) =~= part1 + seq![header_row("Available"@)] + available@.take(i + 1).map_values(
                    |p: AvailableProvider| available_row(p),
                ));
            }
            i = i + 1;
        }
        proof {
            assert(available@.take(available@.len() as int) =~= available@);
        }
    }
    proof {
        assert(rows_view(items@) =~= connect_rows(*data));
    }
    (items, 0)
}

/// How the selected item is taken: Enter runs it, Tab completes it.
#[derive(Debug, Clone, Copy, PartialEq, Eq)]
pub enum PanelAcceptMode {
    Enter,
    Complete,
}

/// What taking the selected picker item asks of the caller.
#[derive(Debug, Clone, PartialEq, Eq)]
pub enum PanelOutcome {
    /// Nothing is selected, or the selection is a header: nothing happens.
    Nothing,
    /// Close the panel and send this message.
    SendMessage(String),
    /// Close the panel and ask for this provider's credentials.
    ProviderSetup(String),
    /// Close the panel and connect this provider.
    ConnectSelect(String),
    /// Replace the panel with the custom-provider wizard.
    OpenWizard,
    /// Replace the panel with this provider's models.
    OpenModelList(String),
    /// Replace the panel with these variants of a model.
    OpenVariantPicker { provider: String, model_id: String, variants: Vec<ModelPickerVariantItem> },
    /// Close the panel and switch to this model.
    SwitchModel { provider: String, model_id: String, variant: Option<String> },
}

/// The outcome `o` is what taking an item whose action is `a` gives: a
/// selection sends `"{command} {value}"`, the other actions carry their
/// values over, and a header does nothing.
pub open spec fn accepts_as(a: ActionView, o: PanelOutcome) -> bool {
    match a {
        ActionView::Header => o is Nothing,
        ActionView::Select { command, value } => o matches PanelOutcome::SendMessage(m) && m@ == command + " "@ + value,
        ActionView::ProviderSetup { provider } => o matches PanelOutcome::ProviderSetup(p) && p@ == provider,
        ActionView::ConnectSelect { provider } => o matches PanelOutcome::ConnectSelect(p) && p@ == provider,
        ActionView::OpenWizard => o is OpenWizard,
        ActionView::OpenModelList { provider } => o matches PanelOutcome::OpenModelList(p) && p@ == provider,
        ActionView::OpenVariantPicker { provider, model_id, variants } => o matches PanelOutcome::OpenVariantPicker {
            provider: p,
            model_id: m,
            variants: v,
        } && p@ == provider && m@ == model_id && variants_view(v@) == variants,
        ActionView::SwitchModel { provider, model_id, variant } => o matches PanelOutcome::SwitchModel {
            provider: p,
            model_id: m,
            variant: v,
        } && p@ == provider && m@ == model_id && opt_view(v) == variant,
    }
}

/// Takes the picker item at `selected` (see `accepts_as`); with no item
/// there, nothing happens.
pub fn accept_selected_item(items: &Vec<PickerItem>, selected: usize) -> (o: PanelOutcome)
    ensures
        selected >= items@.len() ==> o is Nothing,
        selected < items@.len() ==> accepts_as(action_view(items@[selected as int].action), o),
{
    if selected >= items.len() {
        return PanelOutcome::Nothing;
    }
    match &items[selected].action {
        PickerAction::Header => PanelOutcome::Nothing,
        PickerAction::Select { command, value } => {
            let mut m = command.clone();
            m.append(" ");
            m.append(value.as_str());
            PanelOutcome::SendMessage(m)
        },
        PickerAction::ProviderSetup { provider } => PanelOutcome::ProviderSetup(provider.clone()),
        PickerAction::ConnectSelect { provider } => PanelOutcome::ConnectSelect(provider.clone()),
        PickerAction::OpenWizard => PanelOutcome::OpenWizard,
        PickerAction::OpenModelList { provider } => PanelOutcome::OpenModelList(provider.clone()),
        PickerAction::OpenVariantPicker { provider, model_id, variants } => PanelOutcome::OpenVariantPicker {
            provider: provider.clone(),
            model_id: model_id.clone(),
            variants: clone_variants(variants),
        },
        PickerAction::SwitchModel { provider, model_id, variant } => PanelOutcome::SwitchModel {
            provider: provider.clone(),
            model_id: model_id.clone(),
            variant: clone_opt(variant),
        },
    }
}

/// What taking a slash command from the menu does.
#[derive(Debug, Clone, PartialEq, Eq)]
pub enum SlashAccept {
    /// Clear the input, close the menu and send the command.
    Send(String),
    /// Close the menu and put this text in the input.
    Insert(String),
}

/// A command that runs directly is sent on Enter; otherwise it is put in
/// the input, followed by a space when it takes an argument.
pub fn accept_slash_command(command: &str, takes_argument: bool, runs_directly: bool, mode: PanelAcceptMode) -> (r: SlashAccept)
    ensures
        mode is Enter && runs_directly ==> (r matches SlashAccept::Send(c) && c@ == command@),
        !(mode is Enter && runs_directly) ==> (r matches SlashAccept::Insert(c) && c@ == (if takes_argument {
            command@ + " "@
        } else {
            command@
        })),
{
    let enter = match mode {
        PanelAcceptMode::Enter => true,
        PanelAcceptMode::Complete => false,
    };
    if enter && runs_directly {
        SlashAccept::Send(String::from_str(command))
    } else if takes_argument {
        let mut c = String::from_str(command);
        c.append(" ");
        SlashAccept::Insert(c)
    } else {
        SlashAccept::Insert(String::from_str(command))
    }
}

/// The picker rows as panel entries for filtering and navigation, with the
/// given selection.
pub fn picker_list(items: &Vec<PickerItem>, selected: usize) -> (l: PanelList)
    ensures
        !l.is_slash,
        l.selected_index == selected,
        l.items@.len() == items@.len(),
        forall|i: int|
            0 <= i < items@.len() ==> (#[trigger] l.items@[i]).label@ == items@[i].label@
                && l.items@[i].description@ == items@[i].description@ && l.items@[i].is_header == (
            items@[i].action is Header),
{
    let mut entries: Vec<PanelEntry> = Vec::new();
    let mut i: usize = 0;
    while i < items.len()
        invariant
            i <= items@.len(),
            entries@.len() == i,
            forall|t: int|
                0 <= t < i ==> (#[trigger] entries@[t]).label@ == items@[t].label@ && entries@[t].description@
                    == items@[t].description@ && entries@[t].is_header == (items@[t].action is Header),
        decreases items@.len() - i,
    {
        let it = &items[i];
        let is_header = match it.action {
            PickerAction::Header => true,
            _ => false,
        };
        entries.push(PanelEntry { label: it.label.clone(), description: it.description.clone(), is_header });
        i = i + 1;
    }
    PanelList { is_slash: false, items: entries, selected_index: selected }
}

} // verus!
