//! Help with the signatures of what is called.

use vstd::prelude::*;
use vstd::string::*;
use crate::display;
use crate::display::{display_parts_to_string, SymbolDisplayPart};
use crate::language_server::Inner;
use crate::lsp;
use crate::lsp::{ParameterInformation, SignatureHelp, SignatureInformation};
use crate::strings;
use crate::strings::join;
use crate::views;

verus! {

/// A parameter of a signature.
#[derive(Debug)]
pub struct SignatureHelpParameter {
    pub documentation: Vec<SymbolDisplayPart>,
    pub display_parts: Vec<SymbolDisplayPart>,
}

impl SignatureHelpParameter {
    /// The targets of the parts end at offsets that can be counted.
    pub open spec fn fits(self) -> bool {
        display::parts_fit(self.documentation@) && display::parts_fit(self.display_parts@)
    }

    /// The parameter for the client.
    pub open spec fn information(self, language_server: Inner) -> lsp::ParameterView {
        lsp::ParameterView {
            label: display::display_text(self.display_parts@, language_server),
            documentation: display::display_text(self.documentation@, language_server),
        }
    }

    /// The parameter for the client.
    pub fn into_parameter_information(self, language_server: &Inner) -> (r: ParameterInformation)
        requires
            self.fits(),
        ensures
            r@ == self.information(*language_server),
    {
        self.to_parameter_information(language_server)
    }

    /// The parameter for the client.
    fn to_parameter_information(&self, language_server: &Inner) -> (r: ParameterInformation)
        requires
            self.fits(),
        ensures
            r@ == self.information(*language_server),
    {
        ParameterInformation {
            label: display_parts_to_string(self.display_parts.as_slice(), language_server),
            documentation: display_parts_to_string(
                self.documentation.as_slice(),
                language_server,
            ),
        }
    }
}

/// A signature.
#[derive(Debug)]
pub struct SignatureHelpItem {
    pub prefix_display_parts: Vec<SymbolDisplayPart>,
    pub suffix_display_parts: Vec<SymbolDisplayPart>,
    pub parameters: Vec<SignatureHelpParameter>,
    pub documentation: Vec<SymbolDisplayPart>,
}

/// The parameters for the client.
pub open spec fn parameters_of(
    parameters: Seq<SignatureHelpParameter>,
    language_server: Inner,
) -> Seq<lsp::ParameterView> {
    Seq::new(parameters.len(), |i: int| parameters[i].information(language_server))
}

/// The labels of the parameters.
pub open spec fn labels_of(
    parameters: Seq<SignatureHelpParameter>,
    language_server: Inner,
) -> Seq<Seq<char>> {
    Seq::new(parameters.len(), |i: int| parameters[i].information(language_server).label)
}

impl SignatureHelpItem {
    /// The targets of the parts end at offsets that can be counted.
    pub open spec fn fits(self) -> bool {
        &&& display::parts_fit(self.prefix_display_parts@)
        &&& display::parts_fit(self.suffix_display_parts@)
        &&& display::parts_fit(self.documentation@)
        &&& forall|i: int| 0 <= i < self.parameters@.len() ==> (#[trigger] self.parameters@[i]).fits()
    }

    /// The signature for the client: its label is the prefix, the parameters with commas between
    /// them, and the suffix.
    pub open spec fn information(self, language_server: Inner) -> lsp::SignatureView {
        lsp::SignatureView {
            label: display::display_text(self.prefix_display_parts@, language_server)
                + strings::joined(labels_of(self.parameters@, language_server), ", "@)
                + display::display_text(self.suffix_display_parts@, language_server),
            documentation: display::display_text(self.documentation@, language_server),
            parameters: parameters_of(self.parameters@, language_server),
        }
    }

    /// The signature for the client.
    pub fn into_signature_information(self, language_server: &Inner) -> (r: SignatureInformation)
        requires
            self.fits(),
        ensures
            r@ == self.information(*language_server),
    {
        self.to_signature_information(language_server)
    }

    /// The signature for the client.
    fn to_signature_information(&self, language_server: &Inner) -> (r: SignatureInformation)
        requires
            self.fits(),
        ensures
            r@ == self.information(*language_server),
    {
        let mut label = display_parts_to_string(
            self.prefix_display_parts.as_slice(),
            language_server,
        );
        let mut labels: Vec<String> = Vec::new();
        let mut parameters: Vec<ParameterInformation> = Vec::new();
        let mut i: usize = 0;
        while i < self.parameters.len()
            invariant
                i <= self.parameters@.len(),
                self.fits(),
                labels@.len() == i,
                parameters@.len() == i,
                forall|j: int|
                    0 <= j < i ==> (#[trigger] labels@[j])@ == self.parameters@[j].information(
                        *language_server,
                    ).label,
                forall|j: int|
                    0 <= j < i ==> (#[trigger] parameters@[j])@ == self.parameters@[j].information(
                        *language_server,
                    ),
            decreases self.parameters.len() - i,
        {
            let parameter = self.parameters[i].to_parameter_information(language_server);
            labels.push(parameter.label.clone());
            parameters.push(parameter);
            i = i + 1;
        }
        assert(views::seq_view(labels@) =~= labels_of(self.parameters@, *language_server));
        assert(views::seq_view(parameters@) =~= parameters_of(
            self.parameters@,
            *language_server,
        ));
        label.append(join(&labels, ", ").as_str());
        label.append(
            display_parts_to_string(
                self.suffix_display_parts.as_slice(),
                language_server,
            ).as_str(),
        );
        let documentation = display_parts_to_string(
            self.documentation.as_slice(),
            language_server,
        );
        SignatureInformation { label, documentation, parameters }
    }
}

/// The signatures that may be meant.
#[derive(Debug)]
pub struct SignatureHelpItems {
    pub items: Vec<SignatureHelpItem>,
    pub selected_item_index: u32,
    pub argument_index: u32,
}

impl SignatureHelpItems {
    /// The signatures for the client.
    pub fn into_signature_help(self, language_server: &Inner) -> (r: SignatureHelp)
        requires
            forall|i: int| 0 <= i < self.items@.len() ==> (#[trigger] self.items@[i]).fits(),
        ensures
            views::seq_view(r.signatures@) == Seq::new(
                self.items@.len(),
                |i: int| self.items@[i].information(*language_server),
            ),
            r.active_parameter == Some(self.argument_index),
            r.active_signature == Some(self.selected_item_index),
    {
        let mut signatures: Vec<SignatureInformation> = Vec::new();
        let mut i: usize = 0;
        while i < self.items.len()
            invariant
                i <= self.items@.len(),
                signatures@.len() == i,
                forall|j: int| 0 <= j < self.items@.len() ==> (#[trigger] self.items@[j]).fits(),
                forall|j: int|
                    0 <= j < i ==> (#[trigger] signatures@[j])@ == self.items@[j].information(
                        *language_server,
                    ),
            decreases self.items.len() - i,
        {
            signatures.push(self.items[i].to_signature_information(language_server));
            i = i + 1;
        }
        SignatureHelp {
            signatures,
            active_signature: Some(self.selected_item_index),
            active_parameter: Some(self.argument_index),
        }
    }
}

/// A parameter is labelled by its own display parts and documented by its documentation.
pub proof fn law_parameters_are_labelled(parameter: SignatureHelpParameter, language_server: Inner)
    ensures
        parameter.information(language_server).label == display::display_text(
            parameter.display_parts@,
            language_server,
        ),
        parameter.information(language_server).documentation == display::display_text(
            parameter.documentation@,
            language_server,
        ),
{
}

/// A signature reads as it is written: its prefix, then every parameter in order, with a comma and a
/// space between one and the next, then its suffix. Each parameter is told of by itself too.
pub proof fn law_signatures_read_as_written(
    item: SignatureHelpItem,
    labels: Seq<Seq<char>>,
    language_server: Inner,
)
    requires
        labels.len() == item.parameters@.len(),
        forall|i: int|
            0 <= i < labels.len() ==> #[trigger] labels[i] == display::display_text(
                item.parameters@[i].display_parts@,
                language_server,
            ),
    ensures
        ({
            let shown = item.information(language_server);
            &&& shown.label == display::display_text(item.prefix_display_parts@, language_server)
                + strings::joined(labels, seq![',', ' ']) + display::display_text(
                item.suffix_display_parts@,
                language_server,
            )
            &&& shown.documentation == display::display_text(item.documentation@, language_server)
            &&& shown.parameters.len() == labels.len()
            &&& forall|i: int|
                0 <= i < labels.len() ==> {
                    &&& (#[trigger] shown.parameters[i]).label == labels[i]
                    &&& shown.parameters[i].documentation == display::display_text(
                        item.parameters@[i].documentation@,
                        language_server,
                    )
                }
        }),
{
    reveal_strlit(", ");
    assert(", "@ =~= seq![',', ' ']);
    assert(labels_of(item.parameters@, language_server) =~= labels);
}

} // verus!
