use vstd::prelude::*;

verus! {

/// The text of an optional string.
pub open spec fn opt_text(s: Option<String>) -> Option<Seq<char>> {
    match s {
        Some(s) => Some(s@),
        None => None,
    }
}

/// What a client says of one of its windows.
#[derive(Debug, Clone)]
pub struct WindowProperties {
    pub app_id: Option<String>,
    pub title: Option<String>,
    pub modal: bool,
    pub has_parent: bool,
}

impl Default for WindowProperties {
    fn default() -> (p: Self)
        ensures
            p.app_id is None,
            p.title is None,
            !p.modal,
            !p.has_parent,
    {
        WindowProperties { app_id: None, title: None, modal: false, has_parent: false }
    }
}

/// A rule for windows: which windows it is for (by app id and title, each
/// optional), and whether they float.
#[derive(Debug, Clone)]
pub struct WindowRule {
    app_id: Option<String>,
    title: Option<String>,
    floating: Option<bool>,
}

impl Default for WindowRule {
    fn default() -> (r: Self)
        ensures
            r.app_id_spec() is None,
            r.title_spec() is None,
            r.floating_spec() is None,
    {
        WindowRule { app_id: None, title: None, floating: None }
    }
}

/// Whether a rule's optional text admits a window's optional text: a rule
/// without the text admits any window, a rule with it only a window with the
/// same text.
pub open spec fn admits(rule: Option<Seq<char>>, window: Option<Seq<char>>) -> bool {
    match rule {
        None => true,
        Some(r) => window == Some(r),
    }
}

fn admits_exec(rule: &Option<String>, window: &Option<String>) -> (b: bool)
    ensures
        b == admits(opt_text(*rule), opt_text(*window)),
{
    match rule {
        None => true,
        Some(r) => match window {
            Some(w) => w.eq(r),
            None => false,
        },
    }
}

impl WindowRule {
    /// The app id that the rule asks for, if any.
    pub closed spec fn app_id_spec(&self) -> Option<Seq<char>> {
        opt_text(self.app_id)
    }

    /// The title that the rule asks for, if any.
    pub closed spec fn title_spec(&self) -> Option<Seq<char>> {
        opt_text(self.title)
    }

    /// Whether the windows of the rule float, if the rule says so.
    pub closed spec fn floating_spec(&self) -> Option<bool> {
        self.floating
    }

    /// A rule for every window, that says nothing of floating.
    pub fn new() -> (r: Self)
        ensures
            r.app_id_spec() is None,
            r.title_spec() is None,
            r.floating_spec() is None,
    {
        Self::default()
    }

    pub fn app_id(self, app_id: &str) -> (r: Self)
        ensures
            r.app_id_spec() == Some(app_id@),
            r.title_spec() == self.title_spec(),
            r.floating_spec() == self.floating_spec(),
    {
        WindowRule { app_id: Some(String::from_str(app_id)), ..self }
    }

    pub fn title(self, title: &str) -> (r: Self)
        ensures
            r.app_id_spec() == self.app_id_spec(),
            r.title_spec() == Some(title@),
            r.floating_spec() == self.floating_spec(),
    {
        WindowRule { title: Some(String::from_str(title)), ..self }
    }

    pub fn floating(self, floating: bool) -> (r: Self)
        ensures
            r.app_id_spec() == self.app_id_spec(),
            r.title_spec() == self.title_spec(),
            r.floating_spec() == Some(floating),
    {
        WindowRule { floating: Some(floating), ..self }
    }

    /// Whether the rule is for a window with `properties`: the app id and the
    /// title that the rule names, if any, are those of the window.
    pub open spec fn matches_spec(&self, properties: WindowProperties) -> bool {
        &&& admits(self.app_id_spec(), opt_text(properties.app_id))
        &&& admits(self.title_spec(), opt_text(properties.title))
    }

    pub fn matches(&self, properties: &WindowProperties) -> (b: bool)
        ensures
            b == self.matches_spec(*properties),
    {
        admits_exec(&self.app_id, &properties.app_id) && admits_exec(&self.title, &properties.title)
    }

    pub fn floating_action(&self) -> (f: Option<bool>)
        ensures
            f == self.floating_spec(),
    {
        self.floating
    }
}

/// A rule that names neither app id nor title is for every window.
pub proof fn lemma_unrestricted_rule_matches_all(rule: WindowRule, properties: WindowProperties)
    requires
        rule.app_id_spec() is None,
        rule.title_spec() is None,
    ensures
        rule.matches_spec(properties),
{
}

/// A rule that names an app id and no title is for exactly the windows with
/// that app id.
pub proof fn lemma_app_id_rule_matches_exactly(rule: WindowRule, properties: WindowProperties)
    requires
        rule.app_id_spec() is Some,
        rule.title_spec() is None,
    ensures
        rule.matches_spec(properties) <==> opt_text(properties.app_id) == rule.app_id_spec(),
{
}

/// A rule that names a title and no app id is for exactly the windows with
/// that title.
pub proof fn lemma_title_rule_matches_exactly(rule: WindowRule, properties: WindowProperties)
    requires
        rule.title_spec() is Some,
        rule.app_id_spec() is None,
    ensures
        rule.matches_spec(properties) <==> opt_text(properties.title) == rule.title_spec(),
{
}

/// A rule that names both an app id and a title is for exactly the windows
/// with both that app id and that title; a window that differs in either is
/// not matched.
pub proof fn lemma_full_rule_matches_exactly(rule: WindowRule, properties: WindowProperties)
    requires
        rule.app_id_spec() is Some,
        rule.title_spec() is Some,
    ensures
        rule.matches_spec(properties) <==> (opt_text(properties.app_id) == rule.app_id_spec() && opt_text(
            properties.title,
        ) == rule.title_spec()),
{
}

/// Naming a title in a rule only narrows it (as `title` does): the windows
/// the rule is then for are among those it was for, and are exactly those of
/// them with that title.
pub proof fn lemma_title_narrows(
    rule: WindowRule,
    narrowed: WindowRule,
    title: Seq<char>,
    properties: WindowProperties,
)
    requires
        narrowed.app_id_spec() == rule.app_id_spec(),
        narrowed.title_spec() == Some(title),
    ensures
        narrowed.matches_spec(properties) ==> rule.matches_spec(properties) || rule.title_spec() is Some,
        narrowed.matches_spec(properties) ==> opt_text(properties.title) == Some(title),
        rule.title_spec() is None ==> (narrowed.matches_spec(properties) <==> rule.matches_spec(properties)
            && opt_text(properties.title) == Some(title)),
{
}

} // verus!
