//! The model of an IED: logical devices, logical nodes and their data.

use vstd::prelude::*;
use crate::iec61850::rcb::ReportControlBlock;
use crate::iec61850::text::concat_str;
use crate::iec61850::text::contains_pair;
use crate::iec61850::text::spec_contains_pair;
use crate::iec61850::text::spec_first;
use crate::iec61850::text::split_once;
use crate::iec61850::text::str_eq;
use crate::iec61850::text::spec_concat;
use crate::iec61850::text::spec_views;

verus! {

/// The type of a variable, as far as the model reads it.
#[derive(Debug, PartialEq, Eq)]
pub enum TypeSpecification {
    /// An array of elements of one type.
    Array(Box<TypeSpecification>),
    /// A structure of named components.
    Structure(Vec<Component>),
    /// A boolean.
    Bool,
    /// A bit string.
    BitString,
    /// An integer.
    Integer,
    /// An unsigned integer.
    Unsigned,
    /// A floating point number.
    FloatingPoint,
    /// An octet string.
    OctetString,
    /// A visible string.
    VisibleString,
    /// A binary time.
    BinaryTime,
    /// An MMS string.
    MmsString,
    /// A UTC time.
    UtcTime,
}

/// A component of a structure.
#[derive(Debug, PartialEq, Eq)]
pub struct Component {
    /// The name of the component, if it has one.
    pub name: Option<String>,
    /// The type of the component.
    pub component_type: TypeSpecification,
}

/// A node of the model.
#[derive(Debug, PartialEq, Eq)]
pub enum Node {
    /// A data attribute: a leaf with a type.
    DataAttribute { name: String, path: String, data_type: String },
    /// A data object: a node with nodes below it.
    DataObject { name: String, path: String, nodes: Vec<Node> },
}

/// The ghost model of a node.
pub enum NodeView {
    /// A data attribute.
    DataAttribute { name: Seq<char>, path: Seq<char>, data_type: Seq<char> },
    /// A data object.
    DataObject { name: Seq<char>, path: Seq<char>, nodes: Seq<NodeView> },
}

impl View for Node {
    type V = NodeView;

    open spec fn view(&self) -> NodeView
        decreases self,
    {
        match self {
            Node::DataAttribute { name, path, data_type } => NodeView::DataAttribute {
                name: name@,
                path: path@,
                data_type: data_type@,
            },
            Node::DataObject { name, path, nodes } => NodeView::DataObject {
                name: name@,
                path: path@,
                nodes: Seq::new(
                    nodes@.len(),
                    |i: int|
                        if 0 <= i < nodes@.len() {
                            nodes@[i].view()
                        } else {
                            arbitrary()
                        },
                ),
            },
        }
    }
}

impl TypeSpecification {
    /// The name of a type that has no parts.
    pub open spec fn spec_leaf_name(self) -> Seq<char> {
        match self {
            TypeSpecification::Bool => "bool"@,
            TypeSpecification::BitString => "bit_string"@,
            TypeSpecification::Integer => "integer"@,
            TypeSpecification::Unsigned => "unsigned"@,
            TypeSpecification::FloatingPoint => "floating_point"@,
            TypeSpecification::OctetString => "octet_string"@,
            TypeSpecification::VisibleString => "visible_string"@,
            TypeSpecification::BinaryTime => "binary_time"@,
            TypeSpecification::MmsString => "mMSString"@,
            TypeSpecification::UtcTime => "utc_time"@,
            _ => Seq::empty(),
        }
    }
}

impl Component {
    /// The name of the component, empty if it has none.
    pub open spec fn spec_name(self) -> Seq<char> {
        match self.name {
            Some(name) => name@,
            None => Seq::empty(),
        }
    }
}

/// The path of a part: the path of the whole, a dollar sign and the name of
/// the part.
pub open spec fn spec_part_path(path: Seq<char>, name: Seq<char>) -> Seq<char> {
    spec_concat(seq![path, "$"@, name])
}

/// The name of an array type: the name of the element type in brackets.
pub open spec fn spec_array_name(element: Seq<char>) -> Seq<char> {
    spec_concat(seq!["["@, element, "]"@])
}

/// The node that a type gives under a name and a path. A type without parts
/// gives a data attribute with the name of the type. An array gives what
/// its element type gives; if that is a data attribute, its type name is
/// put in brackets. A structure gives a data object with one node for each
/// component, under the path of the structure extended by the name of the
/// component.
pub open spec fn spec_to_nodes(name: Seq<char>, path: Seq<char>, value: TypeSpecification) -> NodeView
    decreases value,
{
    match value {
        TypeSpecification::Array(element) => match spec_to_nodes(name, path, *element) {
            NodeView::DataAttribute { name, path, data_type } => NodeView::DataAttribute {
                name,
                path,
                data_type: spec_array_name(data_type),
            },
            object => object,
        },
        TypeSpecification::Structure(components) => NodeView::DataObject {
            name,
            path,
            nodes: Seq::new(
                components@.len(),
                |i: int|
                    if 0 <= i < components@.len() {
                        spec_to_nodes(
                            components@[i].spec_name(),
                            spec_part_path(path, components@[i].spec_name()),
                            components@[i].component_type,
                        )
                    } else {
                        arbitrary()
                    },
            ),
        },
        _ => NodeView::DataAttribute { name, path, data_type: value.spec_leaf_name() },
    }
}

/// A data attribute of the given type name.
fn attribute(name: String, path: String, data_type: &str) -> (res: Node)
    ensures
        res@ == (NodeView::DataAttribute { name: name@, path: path@, data_type: data_type@ }),
{
    Node::DataAttribute { name, path, data_type: data_type.to_owned() }
}

impl Node {
    /// Builds the node that a type gives under a name and a path.
    pub fn to_nodes(name: String, path: String, value: TypeSpecification) -> (res: Self)
        ensures
            res@ == spec_to_nodes(name@, path@, value),
        decreases value,
    {
        match value {
            TypeSpecification::Array(element) => {
                let node: Node = Self::to_nodes(name, path, *element);
                match node {
                    Node::DataAttribute { name, path, data_type } => {
                        let parts: [&str; 3] = ["[", data_type.as_str(), "]"];
                        assert(spec_views(parts@) =~= seq!["["@, data_type@, "]"@]);
                        Node::DataAttribute { name, path, data_type: concat_str(parts.as_slice()) }
                    },
                    object => object,
                }
            },
            TypeSpecification::Structure(components) => {
                let ghost all = components@;
                let ghost given = components;
                let mut sub_nodes: Vec<Node> = Vec::new();
                for component in it: components.into_iter()
                    invariant
                        it.seq() == all,
                        all == given@,
                        value == TypeSpecification::Structure(given),
                        sub_nodes@.len() == it.index(),
                        forall|j: int|
                            0 <= j < sub_nodes@.len() ==> (#[trigger] sub_nodes@[j])@
                                == spec_to_nodes(
                                all[j].spec_name(),
                                spec_part_path(path@, all[j].spec_name()),
                                all[j].component_type,
                            ),
                {
                    assert(component == all[it.index() as int]);
                    let ghost whole = component;
                    let component_type: TypeSpecification = component.component_type;
                    proof {
                        assert(given@[it.index() as int] == whole);
                        assert(value matches TypeSpecification::Structure(c) && c == given);
                        assert(decreases_to!(value => given@[it.index() as int].component_type));
                    }
                    let component_name: String = match component.name {
                        Some(n) => n,
                        None => String::new(),
                    };
                    let parts: [&str; 3] = [path.as_str(), "$", component_name.as_str()];
                    assert(spec_views(parts@) =~= seq![path@, "$"@, component_name@]);
                    let component_path: String = concat_str(parts.as_slice());
                    let sub_node: Node = Self::to_nodes(
                        component_name,
                        component_path,
                        component_type,
                    );
                    sub_nodes.push(sub_node);
                }
                let node: Node = Node::DataObject { name, path, nodes: sub_nodes };
                assert(node@ == spec_to_nodes(name@, path@, value)) by {
                    assert(node@->DataObject_nodes =~= spec_to_nodes(
                        name@,
                        path@,
                        value,
                    )->DataObject_nodes);
                }
                node
            },
            TypeSpecification::Bool => attribute(name, path, "bool"),
            TypeSpecification::BitString => attribute(name, path, "bit_string"),
            TypeSpecification::Integer => attribute(name, path, "integer"),
            TypeSpecification::Unsigned => attribute(name, path, "unsigned"),
            TypeSpecification::FloatingPoint => attribute(name, path, "floating_point"),
            TypeSpecification::OctetString => attribute(name, path, "octet_string"),
            TypeSpecification::VisibleString => attribute(name, path, "visible_string"),
            TypeSpecification::BinaryTime => attribute(name, path, "binary_time"),
            TypeSpecification::MmsString => attribute(name, path, "mMSString"),
            TypeSpecification::UtcTime => attribute(name, path, "utc_time"),
        }
    }
}

/// A data set of a logical node.
#[derive(Debug, Clone, PartialEq, Eq)]
pub struct Dataset {
    /// The name of the data set.
    pub name: String,
    /// The path of the data set: logical device, a slash and the name.
    pub path: String,
    /// The members of the data set.
    pub entries: Vec<String>,
}

/// A report control block of a logical node.
#[derive(Debug, Clone, PartialEq, Eq)]
pub struct Report {
    /// The name of the report control block.
    pub name: String,
    /// The path of the report control block: logical device, a slash and
    /// the name.
    pub path: String,
    /// Whether the report control block is buffered.
    pub buffered: bool,
    /// The report control block.
    pub rcb: ReportControlBlock,
}

/// A logical node.
#[derive(Debug, PartialEq, Eq)]
pub struct LogicalNode {
    /// The name of the logical node.
    pub name: String,
    /// The path of the logical node: logical device, a slash and the name.
    pub path: String,
    /// The data sets of the logical node, each name once.
    pub datasets: Vec<Dataset>,
    /// The report control blocks of the logical node, each name once.
    pub reports: Vec<Report>,
    /// The data of the logical node.
    pub nodes: Vec<Node>,
}

/// A logical device.
#[derive(Debug, PartialEq, Eq)]
pub struct LogicalDevice {
    /// The name of the logical device.
    pub name: String,
    /// The logical nodes of the logical device.
    pub logical_nodes: Vec<LogicalNode>,
}

/// The model of an IED.
#[derive(Debug, PartialEq, Eq)]
pub struct IedModel {
    /// The logical devices of the IED.
    pub logical_devices: Vec<LogicalDevice>,
}

/// What can go wrong when the model is built.
#[derive(Debug, Clone, PartialEq, Eq)]
pub enum ModelError {
    /// The name of a report control block names no logical node.
    InvalidReport { report: String },
    /// The logical device has no logical node of this name.
    LogicalNodeNotFound { ln_name: String },
    /// The name of a data set names no logical node.
    InvalidDataset { dataset: String },
    /// There is no data set of this name.
    DatasetNotFound { dataset_name: String },
}

/// The ghost model of the errors of the model.
pub enum ModelErrorView {
    /// The name of a report control block names no logical node.
    InvalidReport(Seq<char>),
    /// The logical device has no logical node of this name.
    LogicalNodeNotFound(Seq<char>),
    /// The name of a data set names no logical node.
    InvalidDataset(Seq<char>),
    /// There is no data set of this name.
    DatasetNotFound(Seq<char>),
}

impl View for ModelError {
    type V = ModelErrorView;

    open spec fn view(&self) -> ModelErrorView {
        match self {
            ModelError::InvalidReport { report } => ModelErrorView::InvalidReport(report@),
            ModelError::LogicalNodeNotFound { ln_name } => ModelErrorView::LogicalNodeNotFound(
                ln_name@,
            ),
            ModelError::InvalidDataset { dataset } => ModelErrorView::InvalidDataset(dataset@),
            ModelError::DatasetNotFound { dataset_name } => ModelErrorView::DatasetNotFound(
                dataset_name@,
            ),
        }
    }
}

/// The path of something in a logical device: the name of the device, a
/// slash and the name of the thing.
pub open spec fn spec_device_path(device: Seq<char>, name: Seq<char>) -> Seq<char> {
    spec_concat(seq![device, "/"@, name])
}

/// The name of the logical node that a name of the form `node$rest` names,
/// if the name has this form.
pub open spec fn spec_node_name(name: Seq<char>) -> Option<Seq<char>> {
    if spec_first(name, '$') < name.len() {
        Some(name.take(spec_first(name, '$')))
    } else {
        None
    }
}

/// The place of the first logical node of a name, if there is one.
pub open spec fn spec_find_node(nodes: Seq<LogicalNode>, name: Seq<char>) -> Option<int>
    decreases nodes.len(),
{
    if nodes.len() == 0 {
        None
    } else if nodes[0].name@ == name {
        Some(0)
    } else {
        match spec_find_node(nodes.drop_first(), name) {
            Some(i) => Some(i + 1),
            None => None,
        }
    }
}

/// The place of the first report control block of a name, if there is one.
pub open spec fn spec_find_report(reports: Seq<Report>, name: Seq<char>) -> Option<int>
    decreases reports.len(),
{
    if reports.len() == 0 {
        None
    } else if reports[0].name@ == name {
        Some(0)
    } else {
        match spec_find_report(reports.drop_first(), name) {
            Some(i) => Some(i + 1),
            None => None,
        }
    }
}

/// The place of the first data set of a name, if there is one.
pub open spec fn spec_find_dataset(datasets: Seq<Dataset>, name: Seq<char>) -> Option<int>
    decreases datasets.len(),
{
    if datasets.len() == 0 {
        None
    } else if datasets[0].name@ == name {
        Some(0)
    } else {
        match spec_find_dataset(datasets.drop_first(), name) {
            Some(i) => Some(i + 1),
            None => None,
        }
    }
}

/// Report control blocks after one was put in: it takes the place of the
/// first one of its name, or the end if there is none.
pub open spec fn spec_put_report(reports: Seq<Report>, report: Report) -> Seq<Report> {
    match spec_find_report(reports, report.name@) {
        Some(i) => reports.update(i, report),
        None => reports.push(report),
    }
}

/// Data sets after one was put in: it takes the place of the first one of
/// its name, or the end if there is none.
pub open spec fn spec_put_dataset(datasets: Seq<Dataset>, dataset: Dataset) -> Seq<Dataset> {
    match spec_find_dataset(datasets, dataset.name@) {
        Some(i) => datasets.update(i, dataset),
        None => datasets.push(dataset),
    }
}

impl LogicalNode {
    /// Creates a logical node of a logical device, with nothing in it.
    pub fn new(name: String, logical_device: &str) -> (res: Self)
        ensures
            res.name == name,
            res.path@ == spec_device_path(logical_device@, name@),
            res.datasets@.len() == 0,
            res.reports@.len() == 0,
            res.nodes@.len() == 0,
    {
        let parts: [&str; 3] = [logical_device, "/", name.as_str()];
        assert(spec_views(parts@) =~= seq![logical_device@, "/"@, name@]);
        let path: String = concat_str(parts.as_slice());
        Self { path, name, datasets: Vec::new(), reports: Vec::new(), nodes: Vec::new() }
    }

    /// Puts a report control block into the logical node, in place of one
    /// of the same name if there is one.
    pub fn put_report(&mut self, report: Report)
        ensures
            final(self).reports@ == spec_put_report(old(self).reports@, report),
            final(self).name == old(self).name,
            final(self).path == old(self).path,
            final(self).datasets == old(self).datasets,
            final(self).nodes == old(self).nodes,
    {
        let n: usize = self.reports.len();
        let mut i: usize = 0;
        assert(self.reports@.skip(0) == self.reports@);
        while i < n
            invariant
                n == self.reports@.len(),
                i <= n,
                *self == *old(self),
                match spec_find_report(self.reports@.skip(i as int), report.name@) {
                    Some(k) => spec_find_report(self.reports@, report.name@) == Some(k + i),
                    None => spec_find_report(self.reports@, report.name@) is None,
                },
            decreases n - i,
        {
            let ghost rest = self.reports@.skip(i as int);
            assert(rest[0] == self.reports@[i as int]);
            assert(rest.drop_first() == self.reports@.skip(i + 1));
            if str_eq(self.reports[i].name.as_str(), report.name.as_str()) {
                self.reports.set(i, report);
                return ;
            }
            i = i + 1;
        }
        self.reports.push(report);
    }

    /// Puts a data set into the logical node, in place of one of the same
    /// name if there is one.
    pub fn put_dataset(&mut self, dataset: Dataset)
        ensures
            final(self).datasets@ == spec_put_dataset(old(self).datasets@, dataset),
            final(self).name == old(self).name,
            final(self).path == old(self).path,
            final(self).reports == old(self).reports,
            final(self).nodes == old(self).nodes,
    {
        let n: usize = self.datasets.len();
        let mut i: usize = 0;
        assert(self.datasets@.skip(0) == self.datasets@);
        while i < n
            invariant
                n == self.datasets@.len(),
                i <= n,
                *self == *old(self),
                match spec_find_dataset(self.datasets@.skip(i as int), dataset.name@) {
                    Some(k) => spec_find_dataset(self.datasets@, dataset.name@) == Some(k + i),
                    None => spec_find_dataset(self.datasets@, dataset.name@) is None,
                },
            decreases n - i,
        {
            let ghost rest = self.datasets@.skip(i as int);
            assert(rest[0] == self.datasets@[i as int]);
            assert(rest.drop_first() == self.datasets@.skip(i + 1));
            if str_eq(self.datasets[i].name.as_str(), dataset.name.as_str()) {
                self.datasets.set(i, dataset);
                return ;
            }
            i = i + 1;
        }
        self.datasets.push(dataset);
    }
}

/// Whether a report control block entry is the one that is made for a name
/// and a report control block in a logical device.
pub open spec fn spec_is_report(
    entry: Report,
    device: Seq<char>,
    name: String,
    rcb: ReportControlBlock,
) -> bool {
    &&& entry.name == name
    &&& entry.path@ == spec_device_path(device, name@)
    &&& entry.buffered == spec_contains_pair(name@, 'B', 'R')
    &&& entry.rcb == rcb
}

/// Whether a data set entry is the one that is made for a name and members
/// in a logical device.
pub open spec fn spec_is_dataset(
    entry: Dataset,
    device: Seq<char>,
    name: String,
    entries: Vec<String>,
) -> bool {
    &&& entry.name == name
    &&& entry.path@ == spec_device_path(device, name@)
    &&& entry.entries == entries
}

/// Whether a logical device differs from another only in the logical node
/// at place `k`, and there only in its report control blocks.
pub open spec fn spec_same_but_reports(before: LogicalDevice, after: LogicalDevice, k: int) -> bool {
    &&& after.name == before.name
    &&& after.logical_nodes@.len() == before.logical_nodes@.len()
    &&& forall|i: int|
        0 <= i < before.logical_nodes@.len() && i != k ==> #[trigger] after.logical_nodes@[i]
            == before.logical_nodes@[i]
    &&& after.logical_nodes@[k].name == before.logical_nodes@[k].name
    &&& after.logical_nodes@[k].path == before.logical_nodes@[k].path
    &&& after.logical_nodes@[k].datasets == before.logical_nodes@[k].datasets
    &&& after.logical_nodes@[k].nodes == before.logical_nodes@[k].nodes
}

/// Whether a logical device differs from another only in the logical node
/// at place `k`, and there only in its data sets.
pub open spec fn spec_same_but_datasets(before: LogicalDevice, after: LogicalDevice, k: int) -> bool {
    &&& after.name == before.name
    &&& after.logical_nodes@.len() == before.logical_nodes@.len()
    &&& forall|i: int|
        0 <= i < before.logical_nodes@.len() && i != k ==> #[trigger] after.logical_nodes@[i]
            == before.logical_nodes@[i]
    &&& after.logical_nodes@[k].name == before.logical_nodes@[k].name
    &&& after.logical_nodes@[k].path == before.logical_nodes@[k].path
    &&& after.logical_nodes@[k].reports == before.logical_nodes@[k].reports
    &&& after.logical_nodes@[k].nodes == before.logical_nodes@[k].nodes
}

/// What adding a report control block does to a logical device. The name
/// must have the form `node$rest` and the device must have a logical node
/// of that name; then the report control block is put into the first such
/// node. Else the device stays as it is and the error says what is
/// missing.
pub open spec fn spec_add_report(
    before: LogicalDevice,
    name: String,
    rcb: ReportControlBlock,
    after: LogicalDevice,
    res: Result<(), ModelError>,
) -> bool {
    match spec_node_name(name@) {
        None => after == before && (res matches Err(e) && e@ == ModelErrorView::InvalidReport(name@)),
        Some(node) => match spec_find_node(before.logical_nodes@, node) {
            None => after == before && (res matches Err(e) && e@
                == ModelErrorView::LogicalNodeNotFound(node)),
            Some(k) => {
                &&& res is Ok
                &&& spec_same_but_reports(before, after, k)
                &&& exists|entry: Report| #[trigger]
                    spec_is_report(entry, before.name@, name, rcb)
                        && after.logical_nodes@[k].reports@ == spec_put_report(
                        before.logical_nodes@[k].reports@,
                        entry,
                    )
            },
        },
    }
}

/// What adding a data set does to a logical device, in the same way as
/// adding a report control block.
pub open spec fn spec_add_dataset(
    before: LogicalDevice,
    name: String,
    entries: Vec<String>,
    after: LogicalDevice,
    res: Result<(), ModelError>,
) -> bool {
    match spec_node_name(name@) {
        None => after == before && (res matches Err(e) && e@ == ModelErrorView::InvalidDataset(
            name@,
        )),
        Some(node) => match spec_find_node(before.logical_nodes@, node) {
            None => after == before && (res matches Err(e) && e@
                == ModelErrorView::LogicalNodeNotFound(node)),
            Some(k) => {
                &&& res is Ok
                &&& spec_same_but_datasets(before, after, k)
                &&& exists|entry: Dataset| #[trigger]
                    spec_is_dataset(entry, before.name@, name, entries)
                        && after.logical_nodes@[k].datasets@ == spec_put_dataset(
                        before.logical_nodes@[k].datasets@,
                        entry,
                    )
            },
        },
    }
}

/// What adding report control blocks one after the other does to a logical
/// device: each is added to what the one before left, and the first that
/// fails ends the run with its error.
pub open spec fn spec_add_reports(
    before: LogicalDevice,
    reports: Seq<(String, ReportControlBlock)>,
    after: LogicalDevice,
    res: Result<(), ModelError>,
) -> bool
    decreases reports.len(),
{
    if reports.len() == 0 {
        after == before && res is Ok
    } else {
        exists|between: LogicalDevice, step: Result<(), ModelError>| #[trigger]
            spec_add_report(before, reports[0].0, reports[0].1, between, step) && if step is Ok {
                spec_add_reports(between, reports.drop_first(), after, res)
            } else {
                after == between && res == step
            }
    }
}

/// What adding data sets one after the other does to a logical device.
pub open spec fn spec_add_datasets(
    before: LogicalDevice,
    datasets: Seq<(String, Vec<String>)>,
    after: LogicalDevice,
    res: Result<(), ModelError>,
) -> bool
    decreases datasets.len(),
{
    if datasets.len() == 0 {
        after == before && res is Ok
    } else {
        exists|between: LogicalDevice, step: Result<(), ModelError>| #[trigger]
            spec_add_dataset(before, datasets[0].0, datasets[0].1, between, step) && if step is Ok {
                spec_add_datasets(between, datasets.drop_first(), after, res)
            } else {
                after == between && res == step
            }
    }
}

impl LogicalDevice {
    /// Creates a logical device without logical nodes.
    pub fn new(name: String) -> (res: Self)
        ensures
            res.name == name,
            res.logical_nodes@.len() == 0,
    {
        Self { name, logical_nodes: Vec::new() }
    }

    /// Finds the first logical node of a name.
    pub fn find_logical_node(&self, name: &str) -> (res: Option<usize>)
        ensures
            match res {
                Some(k) => spec_find_node(self.logical_nodes@, name@) == Some(k as int) && k
                    < self.logical_nodes@.len(),
                None => spec_find_node(self.logical_nodes@, name@) is None,
            },
    {
        let n: usize = self.logical_nodes.len();
        let mut i: usize = 0;
        assert(self.logical_nodes@.skip(0) == self.logical_nodes@);
        while i < n
            invariant
                n == self.logical_nodes@.len(),
                i <= n,
                match spec_find_node(self.logical_nodes@.skip(i as int), name@) {
                    Some(k) => spec_find_node(self.logical_nodes@, name@) == Some(k + i),
                    None => spec_find_node(self.logical_nodes@, name@) is None,
                },
            decreases n - i,
        {
            let ghost rest = self.logical_nodes@.skip(i as int);
            assert(rest[0] == self.logical_nodes@[i as int]);
            assert(rest.drop_first() == self.logical_nodes@.skip(i + 1));
            if str_eq(self.logical_nodes[i].name.as_str(), name) {
                return Some(i);
            }
            i = i + 1;
        }
        None
    }

    /// Adds a report control block to the logical node that its name names.
    pub fn add_report(&mut self, report: String, rcb: ReportControlBlock) -> (res: Result<
        (),
        ModelError,
    >)
        ensures
            spec_add_report(*old(self), report, rcb, *final(self), res),
    {
        let buffered: bool = contains_pair(report.as_str(), 'B', 'R');
        let ln_name: &str = match split_once(report.as_str(), '$') {
            Some((before, _)) => before,
            None => {
                return Err(ModelError::InvalidReport { report: report.clone() });
            },
        };
        let k: usize = match self.find_logical_node(ln_name) {
            Some(k) => k,
            None => {
                return Err(ModelError::LogicalNodeNotFound { ln_name: ln_name.to_owned() });
            },
        };
        let parts: [&str; 3] = [self.name.as_str(), "/", report.as_str()];
        assert(spec_views(parts@) =~= seq![self.name@, "/"@, report@]);
        let path: String = concat_str(parts.as_slice());
        let entry: Report = Report { path, name: report, buffered, rcb };
        assert(spec_is_report(entry, self.name@, report, rcb));
        let mut node: LogicalNode = self.logical_nodes.remove(k);
        node.put_report(entry);
        self.logical_nodes.insert(k, node);
        Ok(())
    }

    /// Adds a data set to the logical node that its name names.
    pub fn add_dataset(&mut self, dataset_name: String, entries: Vec<String>) -> (res: Result<
        (),
        ModelError,
    >)
        ensures
            spec_add_dataset(*old(self), dataset_name, entries, *final(self), res),
    {
        let ln_name: &str = match split_once(dataset_name.as_str(), '$') {
            Some((before, _)) => before,
            None => {
                return Err(ModelError::InvalidDataset { dataset: dataset_name.clone() });
            },
        };
        let k: usize = match self.find_logical_node(ln_name) {
            Some(k) => k,
            None => {
                return Err(ModelError::LogicalNodeNotFound { ln_name: ln_name.to_owned() });
            },
        };
        let parts: [&str; 3] = [self.name.as_str(), "/", dataset_name.as_str()];
        assert(spec_views(parts@) =~= seq![self.name@, "/"@, dataset_name@]);
        let path: String = concat_str(parts.as_slice());
        let entry: Dataset = Dataset { path, name: dataset_name, entries };
        assert(spec_is_dataset(entry, self.name@, dataset_name, entries));
        let mut node: LogicalNode = self.logical_nodes.remove(k);
        node.put_dataset(entry);
        self.logical_nodes.insert(k, node);
        Ok(())
    }
}

impl LogicalDevice {
    /// Adds report control blocks one after the other. The first that
    /// cannot be added ends the run; those before it stay added.
    #[verifier::loop_isolation(false)]
    pub fn add_reports(&mut self, reports: Vec<(String, ReportControlBlock)>) -> (res: Result<
        (),
        ModelError,
    >)
        ensures
            spec_add_reports(*old(self), reports@, *final(self), res),
    {
        let ghost all = reports@;
        let ghost start = *self;
        assert(all.skip(0) == all);
        for pair in it: reports.into_iter()
            invariant
                it.seq() == all,
                forall|after: LogicalDevice, res: Result<(), ModelError>| #[trigger]
                    spec_add_reports(*self, all.skip(it.index() as int), after, res)
                        ==> spec_add_reports(start, all, after, res),
        {
            let ghost before = *self;
            let ghost rest = all.skip(it.index() as int);
            let (report, rcb) = pair;
            assert(rest[0] == pair);
            assert(rest.drop_first() == all.skip(it.index() + 1));
            let step: Result<(), ModelError> = self.add_report(report, rcb);
            match step {
                Ok(()) => {
                    assert forall|after: LogicalDevice, res: Result<(), ModelError>| #[trigger]
                        spec_add_reports(
                            *self,
                            all.skip(it.index() + 1),
                            after,
                            res,
                        ) implies spec_add_reports(start, all, after, res) by {
                        assert(spec_add_report(before, rest[0].0, rest[0].1, *self, step));
                        assert(spec_add_reports(before, rest, after, res));
                    }
                },
                Err(e) => {
                    assert(spec_add_report(before, rest[0].0, rest[0].1, *self, step));
                    assert(spec_add_reports(before, rest, *self, step));
                    return Err(e);
                },
            }
        }
        assert(all.skip(all.len() as int) =~= Seq::<(String, ReportControlBlock)>::empty());
        assert(spec_add_reports(*self, all.skip(all.len() as int), *self, Ok(())));
        Ok(())
    }

    /// Adds data sets one after the other. The first that cannot be added
    /// ends the run; those before it stay added.
    #[verifier::loop_isolation(false)]
    pub fn add_datasets(&mut self, datasets: Vec<(String, Vec<String>)>) -> (res: Result<
        (),
        ModelError,
    >)
        ensures
            spec_add_datasets(*old(self), datasets@, *final(self), res),
    {
        let ghost all = datasets@;
        let ghost start = *self;
        assert(all.skip(0) == all);
        for pair in it: datasets.into_iter()
            invariant
                it.seq() == all,
                forall|after: LogicalDevice, res: Result<(), ModelError>| #[trigger]
                    spec_add_datasets(*self, all.skip(it.index() as int), after, res)
                        ==> spec_add_datasets(start, all, after, res),
        {
            let ghost before = *self;
            let ghost rest = all.skip(it.index() as int);
            let (dataset_name, entries) = pair;
            assert(rest[0] == pair);
            assert(rest.drop_first() == all.skip(it.index() + 1));
            let step: Result<(), ModelError> = self.add_dataset(dataset_name, entries);
            match step {
                Ok(()) => {
                    assert forall|after: LogicalDevice, res: Result<(), ModelError>| #[trigger]
                        spec_add_datasets(
                            *self,
                            all.skip(it.index() + 1),
                            after,
                            res,
                        ) implies spec_add_datasets(start, all, after, res) by {
                        assert(spec_add_dataset(before, rest[0].0, rest[0].1, *self, step));
                        assert(spec_add_datasets(before, rest, after, res));
                    }
                },
                Err(e) => {
                    assert(spec_add_dataset(before, rest[0].0, rest[0].1, *self, step));
                    assert(spec_add_datasets(before, rest, *self, step));
                    return Err(e);
                },
            }
        }
        assert(all.skip(all.len() as int) =~= Seq::<(String, Vec<String>)>::empty());
        assert(spec_add_datasets(*self, all.skip(all.len() as int), *self, Ok(())));
        Ok(())
    }
}

/// The views of a sequence of nodes.
pub open spec fn node_views(nodes: Seq<Node>) -> Seq<NodeView> {
    nodes.map_values(|n: Node| n@)
}

/// Whether a component stands for the report control blocks of a logical
/// node rather than for data.
pub open spec fn spec_is_report_component(name: Seq<char>) -> bool {
    name == "BR"@ || name == "RP"@
}

/// The nodes that the components of a logical node give under its path:
/// one for each component, in order, but none for the components that
/// stand for report control blocks.
pub open spec fn spec_parsed(path: Seq<char>, components: Seq<Component>) -> Seq<NodeView>
    decreases components.len(),
{
    if components.len() == 0 {
        Seq::empty()
    } else {
        let first = components[0];
        let rest = spec_parsed(path, components.drop_first());
        if spec_is_report_component(first.spec_name()) {
            rest
        } else {
            seq![
                spec_to_nodes(
                    first.spec_name(),
                    spec_part_path(path, first.spec_name()),
                    first.component_type,
                ),
            ] + rest
        }
    }
}

/// The nodes that the type of a logical node gives under its path: those
/// of its components if it is a structure, else none.
pub open spec fn spec_parse_nodes(path: Seq<char>, data_definition: TypeSpecification) -> Seq<
    NodeView,
> {
    match data_definition {
        TypeSpecification::Structure(components) => spec_parsed(path, components@),
        _ => Seq::empty(),
    }
}

impl LogicalNode {
    /// Reads the data of the logical node from its type and appends it to
    /// the nodes.
    #[verifier::loop_isolation(false)]
    pub fn parse_nodes(&mut self, data_definition: TypeSpecification)
        ensures
            node_views(final(self).nodes@) == node_views(old(self).nodes@) + spec_parse_nodes(
                old(self).path@,
                data_definition,
            ),
            final(self).name == old(self).name,
            final(self).path == old(self).path,
            final(self).datasets == old(self).datasets,
            final(self).reports == old(self).reports,
    {
        match data_definition {
            TypeSpecification::Structure(components) => {
                let ghost all = components@;
                let ghost first_nodes = node_views(self.nodes@);
                assert(all.skip(0) == all);
                assert(first_nodes + spec_parsed(self.path@, all) == node_views(self.nodes@)
                    + spec_parsed(self.path@, all));
                for component in it: components.into_iter()
                    invariant
                        it.seq() == all,
                        self.name == old(self).name,
                        self.path == old(self).path,
                        self.datasets == old(self).datasets,
                        self.reports == old(self).reports,
                        first_nodes + spec_parsed(self.path@, all) == node_views(self.nodes@)
                            + spec_parsed(self.path@, all.skip(it.index() as int)),
                {
                    let ghost rest = all.skip(it.index() as int);
                    let ghost gathered = node_views(self.nodes@);
                    let ghost before = self.nodes@;
                    assert(rest[0] == component);
                    assert(rest.drop_first() == all.skip(it.index() + 1));
                    let name: String = match component.name {
                        Some(n) => n,
                        None => String::new(),
                    };
                    let skip: bool = str_eq(name.as_str(), "BR") || str_eq(name.as_str(), "RP");
                    if !skip {
                        let parts: [&str; 3] = [self.path.as_str(), "$", name.as_str()];
                        assert(spec_views(parts@) =~= seq![self.path@, "$"@, name@]);
                        let path: String = concat_str(parts.as_slice());
                        let sub_node: Node = Node::to_nodes(name, path, component.component_type);
                        self.nodes.push(sub_node);
                        proof {
                            let tail = spec_parsed(self.path@, rest.drop_first());
                            assert(node_views(self.nodes@) =~= gathered.push(sub_node@));
                            assert(gathered + (seq![sub_node@] + tail) == gathered.push(sub_node@)
                                + tail);
                        }
                    }
                }
                assert(all.skip(all.len() as int) =~= Seq::<Component>::empty());
                assert(node_views(self.nodes@) + Seq::<NodeView>::empty() == node_views(
                    self.nodes@,
                ));
            },
            _ => {
                assert(node_views(self.nodes@) + Seq::<NodeView>::empty() == node_views(
                    self.nodes@,
                ));
            },
        }
    }
}

} // verus!
