use vstd::prelude::*;

verus! {

/// The button that shows or hides the suggested guess.
pub struct SuggestionButton {
    pub text: String,
    pub setting: bool,
}

impl Default for SuggestionButton {
    fn default() -> (r: Self)
        ensures
            r.text@ == "Show Suggestions"@,
            !r.setting,
    {
        SuggestionButton { text: "Show Suggestions".to_owned(), setting: false }
    }
}

impl SuggestionButton {
    /// Flips the setting and swaps the label between showing and hiding.
    pub fn toggle(&mut self)
        ensures
            final(self).setting == !old(self).setting,
            final(self).text@ == (if old(self).text@ == "Show Suggestions"@ {
                "Hide Suggestions"@
            } else {
                "Show Suggestions"@
            }),
    {
        self.setting = !self.setting;
        if self.text == "Show Suggestions".to_owned() {
            self.text = "Hide Suggestions".to_owned();
        } else {
            self.text = "Show Suggestions".to_owned();
        }
    }
}

/// The box that displays the suggested guess when suggestions are shown.
pub struct SuggestionBox {
    pub text: String,
    pub suggestion: String,
}

impl Default for SuggestionBox {
    fn default() -> (r: Self)
        ensures
            r.text@ == " "@,
            r.suggestion@ == "..."@,
    {
        SuggestionBox { text: " ".to_owned(), suggestion: "...".to_owned() }
    }
}

impl SuggestionBox {
    /// Shows the suggestion when `setting` is on, and a blank otherwise.
    pub fn set_box(&mut self, setting: bool)
        ensures
            final(self).suggestion@ == old(self).suggestion@,
            final(self).text@ == (if setting {
                old(self).suggestion@
            } else {
                " "@
            }),
    {
        if setting {
            self.text = self.suggestion.clone();
        } else {
            self.text = " ".to_owned();
        }
    }
}

/// The button that shows or hides the analysis of each round.
pub struct AnalysisButton {
    pub text: String,
    pub setting: bool,
}

impl Default for AnalysisButton {
    fn default() -> (r: Self)
        ensures
            r.text@ == "Hide Analysis"@,
            r.setting,
    {
        AnalysisButton { text: "Hide Analysis".to_owned(), setting: true }
    }
}

impl AnalysisButton {
    /// Flips the setting and swaps the label between showing and hiding.
    pub fn toggle(&mut self)
        ensures
            final(self).setting == !old(self).setting,
            final(self).text@ == (if old(self).text@ == "Show Analysis"@ {
                "Hide Analysis"@
            } else {
                "Show Analysis"@
            }),
    {
        self.setting = !self.setting;
        if self.text == "Show Analysis".to_owned() {
            self.text = "Hide Analysis".to_owned();
        } else {
            self.text = "Show Analysis".to_owned();
        }
    }
}

} // verus!
