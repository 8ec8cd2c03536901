//! What can keep a deployment from running a recipe at all.

use vstd::prelude::*;

verus! {

/// A deployment that could not run its recipe: why, for which site, and on
/// which action.
#[derive(Debug)]
pub struct AlkaneDeployError {
    pub message: String,
    /// The name of the site to deploy.
    pub site_name: String,
    /// The deployment action, "init" or "update".
    pub action: String,
}

/// Such an error, as text.
pub ghost struct AlkaneDeployErrorView {
    pub message: Seq<char>,
    pub site_name: Seq<char>,
    pub action: Seq<char>,
}

impl View for AlkaneDeployError {
    type V = AlkaneDeployErrorView;

    open spec fn view(&self) -> AlkaneDeployErrorView {
        AlkaneDeployErrorView {
            message: self.message@,
            site_name: self.site_name@,
            action: self.action@,
        }
    }
}

impl AlkaneDeployErrorView {
    /// The error in one line, which names the action and the site.
    pub open spec fn text(self) -> Seq<char> {
        "Can't run deployment action '"@ + self.action + "' for site '"@ + self.site_name
            + "': "@ + self.message
    }
}

impl AlkaneDeployError {
    pub fn new(message: &str, site_name: &str, action: &str) -> (error: Self)
        ensures
            error@ == (AlkaneDeployErrorView {
                message: message@,
                site_name: site_name@,
                action: action@,
            }),
    {
        AlkaneDeployError {
            message: String::from_str(message),
            site_name: String::from_str(site_name),
            action: String::from_str(action),
        }
    }

    /// The error in one line, which names the action and the site.
    pub fn to_text(&self) -> (text: String)
        ensures
            text@ == self@.text(),
    {
        let mut text = String::from_str("Can't run deployment action '");
        text.append(self.action.as_str());
        text.append("' for site '");
        text.append(self.site_name.as_str());
        text.append("': ");
        text.append(self.message.as_str());
        text
    }
}

/// The errors of a deployment.
#[derive(Debug)]
pub enum DeployError {
    Alkane(AlkaneDeployError),
}

/// The errors of a deployment, as text.
pub ghost enum DeployErrorView {
    Alkane(AlkaneDeployErrorView),
}

impl View for DeployError {
    type V = DeployErrorView;

    open spec fn view(&self) -> DeployErrorView {
        match *self {
            DeployError::Alkane(error) => DeployErrorView::Alkane(error@),
        }
    }
}

impl DeployErrorView {
    /// The error in one line.
    pub open spec fn text(self) -> Seq<char> {
        match self {
            DeployErrorView::Alkane(error) => error.text(),
        }
    }
}

impl DeployError {
    /// The error in one line.
    pub fn to_text(&self) -> (text: String)
        ensures
            text@ == self@.text(),
    {
        match self {
            DeployError::Alkane(error) => error.to_text(),
        }
    }
}

} // verus!
