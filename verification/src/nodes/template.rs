//! The Template node: binds each declared input to its payload and
//! renders a Mustache-style template through the `handlebars` engine.

use vstd::prelude::*;
use vstd::string::StrSliceExecFns;
use vstd::string::StringExecFns;

use crate::data::{Input, State};
use crate::json::{clone_value, json_string};
use crate::nodes::get_string_param;
use crate::payload::Payload;
use crate::strutil::utf8_to_string;

verus! {

#[verifier::external_type_specification]
#[verifier::external_body]
pub struct ExHandlebars<'a>(handlebars::Handlebars<'a>);

/// Relies on `Handlebars::new` and `Handlebars::register_template_string`:
/// builds an engine holding the template under a fixed name. A template
/// that does not compile is left unregistered; rendering then fails.
#[verifier::external_body]
fn compile_template(template: &str) -> (r: handlebars::Handlebars<'static>) {
    let mut hb = handlebars::Handlebars::new();
    let _ = hb.register_template_string("template", template);
    hb
}

/// Relies on `Handlebars::render`: renders the registered template with
/// the given bindings; the error is rendered as text.
#[verifier::external_body]
fn render_template(
    hb: &handlebars::Handlebars<'static>,
    data: &Vec<(String, serde_json::Value)>,
) -> (r: Result<String, String>) {
    let mut map = std::collections::BTreeMap::new();
    for (k, v) in data.iter() {
        map.insert(k.as_str(), v);
    }
    hb.render("template", &map).map_err(|e| e.to_string())
}

/// What a rendering outcome settles to: a rendering error fails the node
/// with its message; rendered bytes are interpreted under the content
/// type — JSON that parses is the node's output, JSON that does not
/// parse fails the node, any other content type keeps the bytes raw.
pub open spec fn spec_template_outcome(
    rendered: Result<Seq<u8>, Seq<char>>,
    ct: Seq<char>,
    r: crate::data::StateV,
) -> bool {
    match rendered {
        Err(e) => r matches crate::data::StateV::Fail(
            Some(crate::payload::PayloadV::Error(m)),
        ) && m == "error rendering template: "@ + e,
        Ok(b) => if ct == "application/json"@ {
            (crate::json::json_wf(b) ==> (r matches crate::data::StateV::Done(Some(
                crate::payload::PayloadV::Json(_),
            )))) && (!crate::json::json_wf(b) ==> (r matches crate::data::StateV::Fail(Some(
                crate::payload::PayloadV::Error(_),
            ))))
        } else {
            r == crate::data::StateV::Done(Some(crate::payload::PayloadV::Raw(b)))
        },
    }
}

/// The settled state for one rendering outcome, exactly as
/// `spec_template_outcome` describes it.
pub fn template_outcome(rendered: Result<Vec<u8>, String>, content_type: &str) -> (r: State)
    ensures
        spec_template_outcome(
            match rendered {
                Ok(b) => Ok(b@),
                Err(e) => Err(e@),
            },
            content_type@,
            r@,
        ),
{
    match rendered {
        Ok(bytes) => {
            match Payload::from_bytes(bytes, Some(content_type)) {
                Some(p) => match p {
                    Payload::Error(e) => State::Fail(Some(Payload::Error(e))),
                    other => State::Done(Some(other)),
                },
                None => State::Done(None),
            }
        },
        Err(err) => {
            let mut msg = String::new();
            msg.append("error rendering template: ");
            msg.append(err.as_str());
            proof {
                assert(msg@ =~= "error rendering template: "@ + err@);
            }
            State::Fail(Some(Payload::Error(msg)))
        },
    }
}

/// The binding list rendering sees, over the zipped prefix of names and
/// slots: a JSON tree under its declared name unchanged, raw UTF-8 bytes
/// as the JSON string of their text, an error payload as the JSON string
/// of its message; absent slots and undecodable bytes bind nothing.
/// Meaningful for equally long name and slot lists.
pub open spec fn spec_template_bindings(
    names: Seq<Seq<char>>,
    slots: Seq<Option<crate::payload::PayloadV>>,
) -> Seq<(Seq<char>, serde_json::Value)>
    decreases names.len(),
{
    if names.len() == 0 || slots.len() == 0 {
        Seq::empty()
    } else {
        spec_template_bindings(names.drop_last(), slots.drop_last()) + (match slots.last() {
            Some(crate::payload::PayloadV::Json(v)) => seq![(names.last(), v)],
            Some(crate::payload::PayloadV::Raw(b)) => if crate::strutil::utf8_ok(b) {
                seq![(names.last(), crate::json::json_str_of(crate::strutil::utf8_of(b)))]
            } else {
                Seq::empty()
            },
            Some(crate::payload::PayloadV::Error(e)) => seq![
                (names.last(), crate::json::json_str_of(e)),
            ],
            None => Seq::empty(),
        })
    }
}

/// Bind each declared input name to its payload for rendering, exactly as
/// `spec_template_bindings` lists them.
pub fn template_bindings(names: &Vec<String>, data: &[Option<&Payload>]) -> (r: Vec<
    (String, serde_json::Value),
>)
    ensures
        ({
            let n = if names.deep_view().len() <= data@.len() {
                names.deep_view().len() as int
            } else {
                data@.len() as int
            };
            Seq::new(r@.len(), |i: int| (r@[i].0@, r@[i].1)) == spec_template_bindings(
                names.deep_view().take(n),
                Seq::new(data@.len(), |i: int| data@[i].deep_view()).take(n),
            )
        }),
{
    let ghost slotviews = Seq::new(data@.len(), |i: int| data@[i].deep_view());
    let mut out: Vec<(String, serde_json::Value)> = Vec::new();
    let n = if names.len() < data.len() {
        names.len()
    } else {
        data.len()
    };
    let mut i: usize = 0;
    while i < n
        invariant
            n <= names@.len(),
            n <= data@.len(),
            0 <= i <= n,
            slotviews == Seq::new(data@.len(), |q: int| data@[q].deep_view()),
            Seq::new(out@.len(), |q: int| (out@[q].0@, out@[q].1)) == spec_template_bindings(
                names.deep_view().take(i as int),
                slotviews.take(i as int),
            ),
        decreases n - i,
    {
        let ghost pre = Seq::new(out@.len(), |q: int| (out@[q].0@, out@[q].1));
        proof {
            assert(names.deep_view().take(i + 1).drop_last() =~= names.deep_view().take(i as int));
            assert(names.deep_view().take(i + 1).last() == names.deep_view()[i as int]);
            assert(slotviews.take(i + 1).drop_last() =~= slotviews.take(i as int));
            assert(slotviews.take(i + 1).last() == slotviews[i as int]);
        }
        let name = &names[i];
        match data[i] {
            Some(p) => match p {
                Payload::Json(v) => {
                    out.push((name.clone(), clone_value(v)));
                },
                Payload::Raw(bytes) => {
                    if let Ok(s) = utf8_to_string(bytes.as_slice()) {
                        out.push((name.clone(), json_string(s)));
                    }
                },
                Payload::Error(e) => {
                    out.push((name.clone(), json_string(e.clone())));
                },
            },
            None => {},
        }
        proof {
            assert(Seq::new(out@.len(), |q: int| (out@[q].0@, out@[q].1))
                =~= spec_template_bindings(
                names.deep_view().take(i + 1),
                slotviews.take(i + 1),
            ));
        }
        i += 1;
    }
    proof {
        assert(names.deep_view().take(n as int) == names.deep_view().take(n as int));
    }
    out
}

pub struct TemplateConfig {
    pub template: String,
    pub content_type: String,
    pub inputs: Vec<String>,
}

impl TemplateConfig {
    /// The template (default empty) and content type (default JSON) from
    /// the node's parameter bag.
    pub fn from_params(
        inputs: &Vec<String>,
        params: &Vec<(String, serde_json::Value)>,
    ) -> (r: TemplateConfig) {
        let template = match get_string_param(params, "template") {
            Some(t) => t,
            None => String::new(),
        };
        let content_type = match get_string_param(params, "content_type") {
            Some(ct) => ct,
            None => "application/json".to_owned(),
        };
        TemplateConfig { template, content_type, inputs: inputs.clone() }
    }
}

pub struct Template {
    config_inputs: Vec<String>,
    content_type: String,
    handlebars: handlebars::Handlebars<'static>,
}

impl Template {
    /// The content type the rendering is interpreted under.
    pub closed spec fn content_type_view(&self) -> Seq<char> {
        self.content_type@
    }

    pub fn new(config: &TemplateConfig) -> (r: Template)
        ensures
            r.content_type_view() == config.content_type@,
    {
        Template {
            config_inputs: config.inputs.clone(),
            content_type: config.content_type.clone(),
            handlebars: compile_template(config.template.as_str()),
        }
    }

    /// Bind each declared input name to its payload — a JSON tree as it
    /// is, raw bytes as a UTF-8 string, an error as its message — render,
    /// and interpret the rendering under the configured content type. A
    /// rendering error, or a rendered body that fails to parse as the
    /// declared JSON, fails the node.
    pub fn run(&self, input: &Input<'_>) -> (r: State)
        ensures
            r@ is Done || r@ is Fail,
            exists|rendered: Result<Seq<u8>, Seq<char>>|
                spec_template_outcome(rendered, self.content_type_view(), r@),
    {
        let data = template_bindings(&self.config_inputs, input.data);
        let rendered = match render_template(&self.handlebars, &data) {
            Ok(output) => Ok(output.as_str().as_bytes_vec()),
            Err(err) => Err(err),
        };
        let ghost rendered_view: Result<Seq<u8>, Seq<char>> = match &rendered {
            Ok(b) => Ok(b@),
            Err(e) => Err(e@),
        };
        let outcome = template_outcome(rendered, self.content_type.as_str());
        proof {
            assert(spec_template_outcome(rendered_view, self.content_type_view(), outcome@));
        }
        outcome
    }
}

} // verus!
