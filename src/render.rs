use vstd::prelude::*;
use vstd::string::StringExecFns;

verus! {

/// A piece of a template: literal text, or a placeholder filled from the
/// event's data by key.
#[derive(Clone, Debug, PartialEq, Eq)]
pub enum Segment {
    Text { text: String },
    Placeholder { key: String },
}

/// The content type of a rendered body.
#[derive(Clone, Copy, Debug, PartialEq, Eq, Structural)]
pub enum ContentKind {
    Html,
    PlainText,
}

/// A registered template.
#[derive(Clone, Debug, PartialEq, Eq)]
pub struct Template {
    pub id: String,
    pub subject: Vec<Segment>,
    pub body: Vec<Segment>,
    pub content_kind: ContentKind,
}

/// A message ready for the transport.
#[derive(Clone, Debug, PartialEq, Eq)]
pub struct Rendered {
    pub subject: String,
    pub body: String,
    pub content_kind: ContentKind,
}

#[derive(Clone, Debug, PartialEq, Eq)]
pub enum RenderError {
    /// No template is registered under the id.
    TemplateNotFound,
    /// The placeholder `key` has no value in the data.
    TemplateDataMissing { key: String },
}

/// The value of `key` in `data`: its first entry with that key.
pub open spec fn value_of(data: Seq<(String, String)>, key: Seq<char>) -> Option<Seq<char>>
    decreases data.len(),
{
    if data.len() == 0 {
        None
    } else if data[0].0@ == key {
        Some(data[0].1@)
    } else {
        value_of(data.drop_first(), key)
    }
}

/// The first placeholder of `segs` that has no value in `data`.
pub open spec fn first_missing(segs: Seq<Segment>, data: Seq<(String, String)>) -> Option<Seq<char>>
    decreases segs.len(),
{
    if segs.len() == 0 {
        None
    } else {
        match first_missing(segs.drop_last(), data) {
            Some(k) => Some(k),
            None => match segs.last() {
                Segment::Placeholder { key } => if value_of(data, key@) is None {
                    Some(key@)
                } else {
                    None
                },
                Segment::Text { .. } => None,
            },
        }
    }
}

/// The text of `segs` with each placeholder replaced by its value (an
/// unfilled placeholder contributes nothing).
pub open spec fn filled(segs: Seq<Segment>, data: Seq<(String, String)>) -> Seq<char>
    decreases segs.len(),
{
    if segs.len() == 0 {
        Seq::empty()
    } else {
        filled(segs.drop_last(), data) + match segs.last() {
            Segment::Text { text } => text@,
            Segment::Placeholder { key } => match value_of(data, key@) {
                Some(v) => v,
                None => Seq::empty(),
            },
        }
    }
}

/// Index of the first template registered under `id`.
pub open spec fn template_index(ts: Seq<Template>, id: Seq<char>) -> Option<int> {
    if exists|i: int|
        0 <= i < ts.len() && ts[i].id@ == id && forall|j: int|
            0 <= j < i ==> (#[trigger] ts[j]).id@ != id {
        Some(
            choose|i: int|
                0 <= i < ts.len() && ts[i].id@ == id && forall|j: int|
                    0 <= j < i ==> (#[trigger] ts[j]).id@ != id,
        )
    } else {
        None
    }
}

/// The result of rendering template `id` with `data`: the subject, the body
/// and the content kind, or `None` for an unknown template, or the first
/// placeholder (subject first, then body) that has no value.
pub open spec fn rendering(ts: Seq<Template>, id: Seq<char>, data: Seq<(String, String)>) -> Result<
    (Seq<char>, Seq<char>, ContentKind),
    Option<Seq<char>>,
> {
    match template_index(ts, id) {
        None => Err(None),
        Some(i) => {
            let t = ts[i];
            match first_missing(t.subject@, data) {
                Some(k) => Err(Some(k)),
                None => match first_missing(t.body@, data) {
                    Some(k) => Err(Some(k)),
                    None => Ok((filled(t.subject@, data), filled(t.body@, data), t.content_kind)),
                },
            }
        },
    }
}

/// A render result seen through the views of its strings.
pub open spec fn render_view(r: Result<Rendered, RenderError>) -> Result<
    (Seq<char>, Seq<char>, ContentKind),
    Option<Seq<char>>,
> {
    match r {
        Ok(m) => Ok((m.subject@, m.body@, m.content_kind)),
        Err(RenderError::TemplateNotFound) => Err(None),
        Err(RenderError::TemplateDataMissing { key }) => Err(Some(key@)),
    }
}

/// Looks `key` up in `data`.
pub fn lookup_value<'a>(data: &'a Vec<(String, String)>, key: &String) -> (r: Option<&'a String>)
    ensures
        match value_of(data@, key@) {
            Some(v) => r is Some && r->Some_0@ == v,
            None => r is None,
        },
{
    let mut i: usize = 0;
    proof {
        assert(data@.skip(0) =~= data@);
    }
    while i < data.len()
        invariant
            i <= data.len(),
            value_of(data@, key@) == value_of(data@.skip(i as int), key@),
        decreases data.len() - i,
    {
        proof {
            assert(data@.skip(i as int).drop_first() =~= data@.skip(i + 1));
        }
        if data[i].0 == *key {
            return Some(&data[i].1);
        }
        i = i + 1;
    }
    None
}

/// Fills the placeholders of `segs` from `data`, or names the first one
/// that has no value.
pub fn fill(segs: &Vec<Segment>, data: &Vec<(String, String)>) -> (r: Result<String, String>)
    ensures
        match first_missing(segs@, data@) {
            Some(k) => r is Err && r->Err_0@ == k,
            None => r is Ok && r->Ok_0@ == filled(segs@, data@),
        },
{
    let mut out = String::new();
    let mut i: usize = 0;
    while i < segs.len()
        invariant
            i <= segs.len(),
            first_missing(segs@.take(i as int), data@) is None,
            out@ == filled(segs@.take(i as int), data@),
        decreases segs.len() - i,
    {
        proof {
            assert(segs@.take(i + 1).drop_last() =~= segs@.take(i as int));
        }
        match &segs[i] {
            Segment::Text { text } => {
                out.append(text.as_str());
            },
            Segment::Placeholder { key } => {
                match lookup_value(data, key) {
                    Some(v) => {
                        out.append(v.as_str());
                    },
                    None => {
                        proof {
                            lemma_missing_extends(segs@, data@, i + 1);
                        }
                        return Err(key.clone());
                    },
                }
            },
        }
        i = i + 1;
    }
    proof {
        assert(segs@.take(i as int) =~= segs@);
    }
    Ok(out)
}

/// A missing placeholder in a prefix is the first missing one of the whole.
proof fn lemma_missing_extends(segs: Seq<Segment>, data: Seq<(String, String)>, n: int)
    requires
        0 <= n <= segs.len(),
        first_missing(segs.take(n), data) is Some,
    ensures
        first_missing(segs, data) == first_missing(segs.take(n), data),
    decreases segs.len() - n,
{
    if n < segs.len() {
        assert(segs.take(n + 1).drop_last() =~= segs.take(n));
        lemma_missing_extends(segs, data, n + 1);
    } else {
        assert(segs.take(n) =~= segs);
    }
}

/// The templates known to the service.
pub struct Renderer {
    pub templates: Vec<Template>,
}

impl Renderer {
    /// Index of the first template registered under `id`.
    pub fn find_template(&self, id: &String) -> (r: Option<usize>)
        ensures
            match template_index(self.templates@, id@) {
                Some(i) => r == Some(i as usize),
                None => r is None,
            },
    {
        let mut i: usize = 0;
        while i < self.templates.len()
            invariant
                i <= self.templates.len(),
                forall|j: int| 0 <= j < i ==> (#[trigger] self.templates@[j]).id@ != id@,
            decreases self.templates.len() - i,
        {
            if self.templates[i].id == *id {
                proof {
                    let ts = self.templates@;
                    let c = choose|c: int|
                        0 <= c < ts.len() && ts[c].id@ == id@ && forall|j: int|
                            0 <= j < c ==> (#[trigger] ts[j]).id@ != id@;
                    assert(0 <= i < ts.len() && ts[i as int].id@ == id@ && forall|j: int|
                        0 <= j < i ==> (#[trigger] ts[j]).id@ != id@);
                    if c < i {
                        assert(ts[c].id@ != id@);
                    }
                    if c > i {
                        assert(ts[i as int].id@ != id@);
                    }
                }
                return Some(i);
            }
            i = i + 1;
        }
        None
    }

    /// Renders template `template_id` with `data` into a subject, a body and
    /// a content type. Fails with `TemplateNotFound` for an unregistered id
    /// and with `TemplateDataMissing` when a placeholder has no value.
    pub fn render(&self, template_id: &String, data: &Vec<(String, String)>) -> (r: Result<
        Rendered,
        RenderError,
    >)
        ensures
            render_view(r) == rendering(self.templates@, template_id@, data@),
    {
        match self.find_template(template_id) {
            None => Err(RenderError::TemplateNotFound),
            Some(i) => {
                proof {
                    let ti = template_index(self.templates@, template_id@)->Some_0;
                    assert(0 <= ti < self.templates.len());
                    assert(ti == i);
                }
                let t = &self.templates[i];
                match fill(&t.subject, data) {
                    Err(key) => Err(RenderError::TemplateDataMissing { key }),
                    Ok(subject) => match fill(&t.body, data) {
                        Err(key) => Err(RenderError::TemplateDataMissing { key }),
                        Ok(body) => Ok(Rendered { subject, body, content_kind: t.content_kind }),
                    },
                }
            },
        }
    }
}

} // verus!
