//! The state probe: given the top-level containers of a live element tree —
//! handed in as plain values by the traversal layer — it locates the first
//! container with the configured name among the direct children, then walks
//! that container's descendants in traversal order and returns the token the
//! extraction pattern captures from the first status-indicator label that
//! matches. The first plausible candidate wins; ties are not disambiguated.
//!
//! A missing container is a probe failure. A container whose descendants
//! yield no token is a legitimate negative result, not a fault.

use vstd::prelude::*;
use crate::error::SwitchError;
use crate::pattern::{Pattern, pattern_token, pattern_ok};
use crate::text::{split_on, str_eq};

verus! {

/// One descendant of the searched container, as the traversal reports it:
/// whether it has the status-indicator shape, and its display label.
pub struct UiItem {
    pub is_indicator: bool,
    pub label: String,
}

/// A direct child of the root element: a named container and its
/// descendants, in traversal order.
pub struct UiContainer {
    pub name: String,
    pub items: Vec<UiItem>,
}

/// What one probe read observes.
#[derive(Debug, PartialEq, Eq)]
pub enum ProbeOutcome {
    /// A state token was extracted.
    Token(String),
    /// The container was found, but no indicator label yielded a token.
    NotFound,
    /// The probe could not reach the container at all.
    Failed,
}

/// The mathematical shape of a probe outcome.
pub enum ProbeView {
    Token(Seq<char>),
    NotFound,
    Failed,
}

impl View for ProbeOutcome {
    type V = ProbeView;

    open spec fn view(&self) -> ProbeView {
        match self {
            ProbeOutcome::Token(t) => ProbeView::Token(t@),
            ProbeOutcome::NotFound => ProbeView::NotFound,
            ProbeOutcome::Failed => ProbeView::Failed,
        }
    }
}

/// The position of the first container bearing `name`; the container count
/// when none does.
pub open spec fn container_index(children: Seq<UiContainer>, name: Seq<char>) -> int
    decreases children.len(),
{
    if children.len() == 0 {
        0
    } else if children[0].name@ == name {
        0
    } else {
        1 + container_index(children.drop_first(), name)
    }
}

proof fn lemma_container_index_at(children: Seq<UiContainer>, name: Seq<char>, k: int)
    requires
        0 <= k <= children.len(),
        forall|j: int| 0 <= j < k ==> (#[trigger] children[j]).name@ != name,
        k == children.len() || children[k].name@ == name,
    ensures
        container_index(children, name) == k,
    decreases children.len(),
{
    if k > 0 {
        let t = children.drop_first();
        assert(forall|j: int| 0 <= j < k - 1 ==> (#[trigger] t[j]) == children[j + 1]);
        lemma_container_index_at(t, name, k - 1);
    }
}

/// The token the pattern extracts from a run of descendants: the first
/// status-indicator item whose label yields a token wins; an item of another
/// shape, or whose label the pattern does not match, is passed over.
pub open spec fn scan_token(items: Seq<UiItem>, alts: Seq<Seq<char>>) -> Option<Seq<char>>
    decreases items.len(),
{
    if items.len() == 0 {
        None
    } else if items[0].is_indicator && pattern_token(alts, items[0].label@) is Some {
        pattern_token(alts, items[0].label@)
    } else {
        scan_token(items.drop_first(), alts)
    }
}

/// What a probe read of `children` under `name` with pattern `alts` yields.
pub open spec fn probe_view(
    children: Seq<UiContainer>,
    name: Seq<char>,
    alts: Seq<Seq<char>>,
) -> ProbeView {
    let idx = container_index(children, name);
    if idx == children.len() {
        ProbeView::Failed
    } else {
        match scan_token(children[idx].items@, alts) {
            Option::Some(tok) => ProbeView::Token(tok),
            Option::None => ProbeView::NotFound,
        }
    }
}

/// Reads the current state token: finds the first container named
/// `container_name` among the direct children, then returns the token the
/// pattern captures from the first matching indicator label below it.
pub fn probe_read(children: &Vec<UiContainer>, container_name: &str, pattern: &Pattern) -> (r:
    ProbeOutcome)
    ensures
        r@ == probe_view(children@, container_name@, pattern.alts_view()),
{
    let n = children.len();
    let mut i: usize = 0;
    while i < n
        invariant
            n == children@.len(),
            i <= n,
            forall|j: int| 0 <= j < i ==> (#[trigger] children@[j]).name@ != container_name@,
        decreases n - i,
    {
        if str_eq(children[i].name.as_str(), container_name) {
            proof {
                lemma_container_index_at(children@, container_name@, i as int);
            }
            let items = &children[i].items;
            let m = items.len();
            proof {
                assert(items@.skip(0) =~= items@);
            }
            let mut j: usize = 0;
            while j < m
                invariant
                    n == children@.len(),
                    i < n,
                    container_index(children@, container_name@) == i as int,
                    items@ == children@[i as int].items@,
                    m == items@.len(),
                    j <= m,
                    scan_token(items@, pattern.alts_view()) == scan_token(
                        items@.skip(j as int),
                        pattern.alts_view(),
                    ),
                decreases m - j,
            {
                proof {
                    assert(items@.skip(j as int)[0] == items@[j as int]);
                    assert(items@.skip(j as int).drop_first() =~= items@.skip(j as int + 1));
                }
                if items[j].is_indicator {
                    match pattern.capture(items[j].label.as_str()) {
                        Some(tok) => {
                            proof {
                                assert(scan_token(items@.skip(j as int), pattern.alts_view())
                                    == pattern_token(pattern.alts_view(), items@[j as int].label@));
                            }
                            return ProbeOutcome::Token(tok);
                        },
                        None => {},
                    }
                }
                j += 1;
            }
            proof {
                assert(items@.skip(m as int) =~= Seq::<UiItem>::empty());
            }
            return ProbeOutcome::NotFound;
        }
        i += 1;
    }
    proof {
        lemma_container_index_at(children@, container_name@, n as int);
    }
    ProbeOutcome::Failed
}

/// A probe locator, as configuration supplies it: the named container to
/// search, and the extraction pattern, compiled. A pattern that does not
/// compile is rejected here, at configuration time — never at probe time.
#[derive(Debug)]
pub struct ProbeLocator {
    pub container_name: String,
    pub pattern: Pattern,
}

impl ProbeLocator {
    /// Builds a locator from the configured container name and pattern
    /// text; fails with the configuration error exactly when the pattern
    /// does not compile.
    pub fn new(container_name: String, pattern_text: &str) -> (r: Result<
        ProbeLocator,
        SwitchError,
    >)
        ensures
            r is Ok <==> pattern_ok(pattern_text@),
            r matches Ok(loc) ==> loc.container_name == container_name && loc.pattern.alts_view()
                == split_on(pattern_text@, '|'),
            r is Err ==> r == Err::<ProbeLocator, SwitchError>(SwitchError::BadPattern),
    {
        match Pattern::compile(pattern_text) {
            Ok(pattern) => Ok(ProbeLocator { container_name, pattern }),
            Err(e) => Err(e),
        }
    }

    /// Reads the current state token under this locator.
    pub fn read(&self, children: &Vec<UiContainer>) -> (r: ProbeOutcome)
        ensures
            r@ == probe_view(children@, self.container_name@, self.pattern.alts_view()),
    {
        probe_read(children, self.container_name.as_str(), &self.pattern)
    }
}

/// Reads the current input-method state token through the probe: the query
/// operation of the indicator-probing mode. The pattern text is compiled
/// here; a text that does not compile is a configuration error. A container
/// that cannot be located is a probe failure; a located container with no
/// matching indicator label means the status was not found.
pub fn get_input_method_mspy(
    children: &Vec<UiContainer>,
    taskbar_name: &str,
    ime_pattern: &str,
) -> (r: Result<String, SwitchError>)
    ensures
        !pattern_ok(ime_pattern@) ==> r == Err::<String, SwitchError>(SwitchError::BadPattern),
        pattern_ok(ime_pattern@) ==> (match probe_view(
            children@,
            taskbar_name@,
            split_on(ime_pattern@, '|'),
        ) {
            ProbeView::Token(s) => r matches Ok(t) && t@ == s,
            ProbeView::NotFound => r == Err::<String, SwitchError>(SwitchError::StatusNotFound),
            ProbeView::Failed => r == Err::<String, SwitchError>(SwitchError::ContainerNotFound),
        }),
{
    let locator = match ProbeLocator::new(taskbar_name.to_owned(), ime_pattern) {
        Ok(loc) => loc,
        Err(e) => {
            return Err(e);
        },
    };
    match locator.read(children) {
        ProbeOutcome::Token(t) => Ok(t),
        ProbeOutcome::NotFound => Err(SwitchError::StatusNotFound),
        ProbeOutcome::Failed => Err(SwitchError::ContainerNotFound),
    }
}

} // verus!
