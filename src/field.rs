//! One declared form field and the widget that its answer type selects.
use vstd::prelude::*;

verus! {

/// A declared question of the form.
#[derive(Clone, Debug)]
pub struct FieldDef {
    /// Key under which the answer is recorded.
    pub name: String,
    pub title: String,
    pub description: String,
    /// Tag that selects the widget.
    pub answer_type: String,
    /// Markup placed before the widget, passed through untouched.
    pub html_before: Option<String>,
    /// Markup placed after the widget, passed through untouched.
    pub html_after: Option<String>,
    /// Choices of a `select` field.
    pub options: Option<Vec<String>>,
}

/// The rendering behaviour a field resolves to.
#[derive(Debug)]
pub enum FieldWidget<'a> {
    Checkbox,
    Textarea,
    Select(&'a [String]),
    Input(&'a str),
}

/// The widget class without its payload.
#[derive(PartialEq, Eq, Structural, Clone, Copy, Debug)]
pub enum WidgetKind {
    Checkbox,
    Textarea,
    Select,
    Input,
}

/// The class of widget an answer-type tag selects: three fixed tags, anything else is a text input.
pub open spec fn kind_of(answer_type: Seq<char>) -> WidgetKind {
    if answer_type == "checkbox"@ {
        WidgetKind::Checkbox
    } else if answer_type == "textarea"@ {
        WidgetKind::Textarea
    } else if answer_type == "select"@ {
        WidgetKind::Select
    } else {
        WidgetKind::Input
    }
}

/// The choices of a field, empty when none were declared.
pub open spec fn options_of(f: FieldDef) -> Seq<String> {
    match f.options {
        Some(v) => v@,
        None => Seq::empty(),
    }
}

impl<'a> FieldWidget<'a> {
    pub open spec fn kind(self) -> WidgetKind {
        match self {
            FieldWidget::Checkbox => WidgetKind::Checkbox,
            FieldWidget::Textarea => WidgetKind::Textarea,
            FieldWidget::Select(_) => WidgetKind::Select,
            FieldWidget::Input(_) => WidgetKind::Input,
        }
    }
}

fn tag_is(tag: &String, lit: &str) -> (r: bool)
    ensures
        r == (tag@ == lit@),
{
    let l = lit.to_string();
    *tag == l
}

impl FieldDef {
    /// Resolves the field's answer type to a widget. Total: every tag yields one.
    pub fn widget(&self) -> (r: FieldWidget<'_>)
        ensures
            r.kind() == kind_of(self.answer_type@),
            r matches FieldWidget::Select(o) ==> o@ == options_of(*self),
            r matches FieldWidget::Input(t) ==> t@ == self.answer_type@,
    {
        proof {
            reveal_strlit("checkbox");
            reveal_strlit("textarea");
            reveal_strlit("select");
        }
        if tag_is(&self.answer_type, "checkbox") {
            FieldWidget::Checkbox
        } else if tag_is(&self.answer_type, "textarea") {
            FieldWidget::Textarea
        } else if tag_is(&self.answer_type, "select") {
            match &self.options {
                Some(v) => FieldWidget::Select(v.as_slice()),
                None => FieldWidget::Select(&[]),
            }
        } else {
            FieldWidget::Input(self.answer_type.as_str())
        }
    }
}

/// Widget resolution depends on the answer-type tag alone: two fields with the same tag
/// resolve to the same class of widget, whatever else they hold.
pub proof fn lemma_widget_depends_on_tag_only(a: FieldDef, b: FieldDef)
    requires
        a.answer_type@ == b.answer_type@,
    ensures
        kind_of(a.answer_type@) == kind_of(b.answer_type@),
{
}

} // verus!
