use html5ever::parse_document;
use html5ever::tendril::TendrilSink;
use markup5ever_rcdom::Handle;
use markup5ever_rcdom::NodeData as RcNodeData;
use markup5ever_rcdom::RcDom;

use crawltext::dom::DomNode;
use crawltext::dom::NodeData;
use crawltext::extract::FetchOutcome;
use crawltext::extract::extract;

fn convert(handle: &Handle) -> DomNode {
    let data = match &handle.data {
        RcNodeData::Document => NodeData::Document,
        RcNodeData::Doctype { .. } => NodeData::Doctype,
        RcNodeData::Text { contents } => {
            NodeData::Text { contents: contents.borrow().to_string() }
        },
        RcNodeData::Comment { .. } => NodeData::Comment,
        RcNodeData::Element { name, .. } => {
            NodeData::Element { name: name.local.as_ref().to_string() }
        },
        RcNodeData::ProcessingInstruction { .. } => unreachable!(),
    };
    let children = handle.children.borrow().iter().map(convert).collect();
    DomNode { data, children }
}

fn parse(body: &str) -> DomNode {
    let rc: RcDom = parse_document(RcDom::default(), Default::default()).one(body);
    convert(&rc.document)
}

#[test]
fn extract_reduces_parsed_html() {
    let dom = parse("<html><body>Hello <script>ignored()</script>World</body></html>");
    let r = extract(&FetchOutcome::Response { success: true, dom });
    assert_eq!(r.unwrap(), "Hello World");
}

#[test]
fn extract_drops_style_from_parsed_html() {
    let dom = parse("<html><head><style>p { color: red }</style></head><body>kept</body></html>");
    let r = extract(&FetchOutcome::Response { success: true, dom });
    assert_eq!(r.unwrap(), "kept");
}

#[test]
fn extract_handles_malformed_html_leniently() {
    // A malformed document is still parsed best-effort, never an error.
    let dom = parse("<p>unclosed <b>nested");
    let r = extract(&FetchOutcome::Response { success: true, dom });
    assert_eq!(r.unwrap(), "unclosed nested");
}
