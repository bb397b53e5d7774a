//! The widgets of a menu: a label, a button, a group of radio buttons, a
//! selection, and a text box. Each has a caption and renders as one line.

use vstd::prelude::*;
use vstd::string::StringExecFns;

verus! {

/// A run of `number` tab characters.
pub open spec fn tabs(number: nat) -> Seq<char> {
    Seq::new(number, |i: int| '\t')
}

/// The text of each of `names`.
pub open spec fn names_of(names: Seq<String>) -> Seq<Seq<char>> {
    names.map_values(|name: String| name@)
}

/// How one option is shown: between brackets when it is switched on, between
/// blanks when it is not.
pub open spec fn option_text(name: Seq<char>, on: bool) -> Seq<char> {
    if on {
        "[ "@ + name + " ]"@
    } else {
        "  "@ + name + "  "@
    }
}

/// What stands between an option and the one after it: a blank after an
/// option that is switched on, a comma and a blank after one that is not.
pub open spec fn separator(on: bool) -> Seq<char> {
    if on {
        " "@
    } else {
        ", "@
    }
}

/// Option `i` of a line of options as it is shown, with the separator that
/// the option before it calls for.
pub open spec fn option_piece(names: Seq<Seq<char>>, on: spec_fn(Seq<char>) -> bool, i: int) -> Seq<
    char,
> {
    if i == 0 {
        option_text(names[i], on(names[i]))
    } else {
        separator(on(names[i - 1])) + option_text(names[i], on(names[i]))
    }
}

/// A line of options: every option of `names` as it is shown, in order.
pub open spec fn options_line(names: Seq<Seq<char>>, on: spec_fn(Seq<char>) -> bool) -> Seq<char> {
    Seq::new(names.len(), |i: int| option_piece(names, on, i)).flatten()
}

/// A caption, a colon, `number_of_tab` tabs, and the line of options.
pub open spec fn caption_and_options(
    text: Seq<char>,
    number_of_tab: nat,
    names: Seq<Seq<char>>,
    on: spec_fn(Seq<char>) -> bool,
) -> Seq<char> {
    text + ":"@ + tabs(number_of_tab) + options_line(names, on)
}

/// A string of `number` tabs.
pub fn get_tabs(number: u32) -> (tab: String)
    ensures
        tab@ == tabs(number as nat),
{
    let mut tab = String::new();
    let mut k: u32 = 0;
    while k < number
        invariant
            k <= number,
            tab@ == tabs(k as nat),
        decreases number - k,
    {
        proof {
            reveal_strlit("\t");
        }
        tab.append("\t");
        assert(tab@ =~= tabs((k + 1) as nat));
        k += 1;
    }
    tab
}

/// The kind of a widget.
#[derive(Clone, Copy, Debug, PartialEq, Eq, Structural)]
pub enum MenuType {
    Lable,
    Button,
    RadioButton,
    Selection,
    TextBox,
}

/// Any one widget.
#[derive(Debug)]
pub enum MenuItem {
    Lable(Lable),
    Button(Button),
    RadioButton(RadioButton),
    Selection(Selection),
    TextBox(TextBox),
}

impl MenuItem {
    /// The caption of the widget.
    pub open spec fn text(&self) -> Seq<char> {
        match self {
            MenuItem::Lable(widget) => widget.text(),
            MenuItem::Button(widget) => widget.text(),
            MenuItem::RadioButton(widget) => widget.text(),
            MenuItem::Selection(widget) => widget.text(),
            MenuItem::TextBox(widget) => widget.text(),
        }
    }

    /// The kind of the widget.
    pub open spec fn menu_type(&self) -> MenuType {
        match self {
            MenuItem::Lable(widget) => widget.menu_type(),
            MenuItem::Button(widget) => widget.menu_type(),
            MenuItem::RadioButton(widget) => widget.menu_type(),
            MenuItem::Selection(widget) => widget.menu_type(),
            MenuItem::TextBox(widget) => widget.menu_type(),
        }
    }
}

impl Clone for MenuItem {
    /// A copy of the same kind with the same caption.
    fn clone(&self) -> (copy: Self)
        ensures
            copy.menu_type() == self.menu_type(),
            copy.text() == self.text(),
    {
        match self {
            MenuItem::Lable(widget) => MenuItem::Lable(widget.clone()),
            MenuItem::Button(widget) => MenuItem::Button(widget.clone()),
            MenuItem::RadioButton(widget) => MenuItem::RadioButton(widget.clone()),
            MenuItem::Selection(widget) => MenuItem::Selection(widget.clone()),
            MenuItem::TextBox(widget) => MenuItem::TextBox(widget.clone()),
        }
    }
}

/// What every widget has: a caption and a kind.
pub trait MenuObject {
    /// The caption.
    spec fn text(&self) -> Seq<char>;

    /// The kind of widget.
    spec fn menu_type(&self) -> MenuType;

    /// The caption.
    fn get_text(&self) -> (text: &str)
        ensures
            text@ == self.text(),
    ;

    /// The kind of widget.
    fn get_type(&self) -> (menu_type: &MenuType)
        ensures
            *menu_type == self.menu_type(),
    ;
}

/// A widget that holds a value of type `T` under each of its option names,
/// and takes a new one as a `C`.
pub trait Value<T, C> {
    /// The value held under `name`, or `None` when the widget has no such option.
    spec fn value_of(&self, name: Seq<char>) -> Option<T>;

    /// The option names, in the order in which they are shown.
    spec fn option_names(&self) -> Seq<Seq<char>>;

    /// Reads the value held under `name`.
    fn get(&self, name: &str) -> (r: Option<&T>)
        ensures
            r is Some <==> self.value_of(name@) is Some,
            r matches Some(value) ==> *value == self.value_of(name@)->Some_0,
    ;

    /// Hands the widget a new value for `name`. The option names stay, and
    /// where the widget refuses, so does every value.
    fn change(&mut self, name: &str, value: C) -> (r: Option<()>)
        ensures
            final(self).option_names() == old(self).option_names(),
            r is None ==> forall|other: Seq<char>|
                #[trigger] final(self).value_of(other) == old(self).value_of(other),
    ;

    /// The option names, in the order in which they are shown.
    fn get_options(&self) -> (names: &[String])
        ensures
            names_of(names@) == self.option_names(),
    ;
}

/// A widget that renders as one line of text.
pub trait FormattedString {
    /// The line that the widget renders as, with `number_of_tab` tabs
    /// between its caption and what follows.
    spec fn formatted(&self, number_of_tab: nat) -> Seq<char>;

    /// Renders the widget as one line.
    fn format(&self, number_of_tab: u32) -> (line: String)
        ensures
            line@ == self.formatted(number_of_tab as nat),
    ;
}

/// A caption and nothing else.
#[derive(Debug)]
pub struct Lable {
    text: String,
}

impl Clone for Lable {
    /// A copy with the same caption.
    fn clone(&self) -> (copy: Self)
        ensures
            copy.text() == self.text(),
    {
        Self { text: self.text.clone() }
    }
}

impl Lable {
    /// A label captioned `text`.
    pub fn new(text: &str) -> (lable: Self)
        ensures
            lable.text() == text@,
    {
        Self { text: text.to_owned() }
    }
}

impl MenuObject for Lable {
    closed spec fn text(&self) -> Seq<char> {
        self.text@
    }

    open spec fn menu_type(&self) -> MenuType {
        MenuType::Lable
    }

    fn get_text(&self) -> (text: &str) {
        self.text.as_str()
    }

    fn get_type(&self) -> (menu_type: &MenuType) {
        &MenuType::Lable
    }
}

impl FormattedString for Lable {
    /// A label renders as its caption, whatever the number of tabs.
    open spec fn formatted(&self, number_of_tab: nat) -> Seq<char> {
        self.text()
    }

    fn format(&self, _number_of_tab: u32) -> (line: String) {
        self.get_text().to_owned()
    }
}

/// A list of named options, each switched on or off. Where a name occurs
/// more than once, its first occurrence holds its value.
#[derive(Debug)]
pub struct Choices {
    names: Vec<String>,
    values: Vec<bool>,
}

impl Choices {
    /// What every value of this type satisfies: each name has its switch.
    #[verifier::type_invariant]
    pub closed spec fn wf(self) -> bool {
        self.names.len() == self.values.len()
    }

    /// The option names, in order.
    pub closed spec fn names(&self) -> Seq<Seq<char>> {
        names_of(self.names@)
    }

    /// The switches, in the order of the names.
    pub closed spec fn switches(&self) -> Seq<bool> {
        self.values@
    }

    /// Whether the option `name` is switched on, or `None` when there is no
    /// such option.
    pub open spec fn value_of(&self, name: Seq<char>) -> Option<bool> {
        match self.names().index_of_first(name) {
            Some(i) => Some(self.switches()[i]),
            None => None,
        }
    }

    /// Whether the option `name` exists and is switched on.
    pub open spec fn is_on(&self, name: Seq<char>) -> bool {
        self.value_of(name) == Some(true)
    }

    /// The options `names`, all switched off.
    pub fn new(names: &[String]) -> (choices: Self)
        ensures
            choices.wf(),
            choices.names() == names_of(names@),
            forall|name: Seq<char>|
                #[trigger] choices.value_of(name) == (if names_of(names@).contains(name) {
                    Some(false)
                } else {
                    None
                }),
    {
        let mut kept: Vec<String> = Vec::new();
        let mut values: Vec<bool> = Vec::new();
        let mut i: usize = 0;
        while i < names.len()
            invariant
                i <= names.len(),
                kept.len() == i,
                values.len() == i,
                names_of(kept@) == names_of(names@.take(i as int)),
                forall|k: int| 0 <= k < i ==> !(#[trigger] values[k]),
            decreases names.len() - i,
        {
            let ghost earlier = kept@;
            kept.push(names[i].clone());
            values.push(false);
            proof {
                let shown = names_of(kept@);
                let wanted = names_of(names@.take(i + 1));
                assert forall|k: int| 0 <= k < shown.len() implies shown[k] == wanted[k] by {
                    if k < i {
                        assert(kept@[k] == earlier[k]);
                        assert(names_of(earlier)[k] == names_of(names@.take(i as int))[k]);
                    }
                }
                assert(shown =~= wanted);
            }
            i += 1;
        }
        proof {
            assert(names@.take(i as int) =~= names@);
            assert forall|name: Seq<char>|
                (match names_of(kept@).index_of_first(name) {
                    Some(i) => Some(values@[i]),
                    None => None,
                }) == (if names_of(names@).contains(name) {
                    Some(false)
                } else {
                    None::<bool>
                }) by {
                names_of(kept@).index_of_first_ensures(name);
            }
        }
        Choices { names: kept, values }
    }

    /// Where `name` first occurs among the option names.
    fn position(&self, name: &str) -> (r: Option<usize>)
        ensures
            match r {
                Some(i) => self.names().index_of_first(name@) == Some(i as int) && i
                    < self.switches().len(),
                None => self.names().index_of_first(name@) is None,
            },
    {
        proof {
            use_type_invariant(self);
            self.names().index_of_first_ensures(name@);
        }
        let wanted = name.to_owned();
        let mut i: usize = 0;
        while i < self.names.len()
            invariant
                i <= self.names.len(),
                self.names.len() == self.values.len(),
                wanted@ == name@,
                forall|k: int| 0 <= k < i ==> (#[trigger] self.names@[k])@ != name@,
            decreases self.names.len() - i,
        {
            if self.names[i] == wanted {
                proof {
                    assert(self.names()[i as int] == name@);
                    self.names().index_of_first_ensures(name@);
                    let first = self.names().index_of_first(name@)->Some_0;
                    if first < i {
                        assert(self.names()[first] == self.names@[first]@);
                    }
                }
                return Some(i);
            }
            i += 1;
        }
        proof {
            self.names().index_of_first_ensures(name@);
            if self.names().contains(name@) {
                let k = choose|k: int| 0 <= k < self.names().len() && self.names()[k] == name@;
                assert(self.names@[k]@ == name@);
            }
        }
        None
    }

    /// Reads the switch of the option `name`.
    pub fn get(&self, name: &str) -> (r: Option<&bool>)
        ensures
            r is Some <==> self.value_of(name@) is Some,
            r matches Some(value) ==> *value == self.value_of(name@)->Some_0,
    {
        match self.position(name) {
            Some(i) => Some(&self.values[i]),
            None => None,
        }
    }

    /// Sets the switch of the option `name` to `value`. Refuses, and changes
    /// nothing, when there is no such option.
    pub fn change(&mut self, name: &str, value: bool) -> (r: Option<()>)
        ensures
            final(self).names() == old(self).names(),
            r is Some <==> old(self).value_of(name@) is Some,
            forall|other: Seq<char>|
                #[trigger] final(self).value_of(other) == (if r is Some && other == name@ {
                    Some(value)
                } else {
                    old(self).value_of(other)
                }),
    {
        proof {
            use_type_invariant(&*self);
        }
        match self.position(name) {
            Some(i) => {
                self.values[i] = value;
                proof {
                    assert(self.names() == old(self).names());
                    assert(self.switches() == old(self).switches().update(i as int, value));
                    assert forall|other: Seq<char>|
                        #[trigger] self.value_of(other) == (if other == name@ {
                            Some(value)
                        } else {
                            old(self).value_of(other)
                        }) by {
                        self.names().index_of_first_ensures(other);
                        self.names().index_of_first_ensures(name@);
                    }
                }
                Some(())
            },
            None => None,
        }
    }

    /// The option names, in order.
    pub fn get_names(&self) -> (names: &[String])
        ensures
            names_of(names@) == self.names(),
    {
        self.names.as_slice()
    }

    /// The line of options: each between brackets or blanks as its switch
    /// says, with a separator between neighbours.
    pub fn format(&self) -> (line: String)
        ensures
            line@ == options_line(self.names(), |name: Seq<char>| self.is_on(name)),
    {
        let ghost on = |name: Seq<char>| self.is_on(name);
        let ghost names = self.names();
        let ghost pieces = Seq::new(names.len(), |i: int| option_piece(names, on, i));
        let mut line = String::new();
        let mut last_on = false;
        let mut i: usize = 0;
        proof {
            assert(pieces.take(0) =~= Seq::<Seq<char>>::empty());
        }
        while i < self.names.len()
            invariant
                i <= self.names.len(),
                on == (|name: Seq<char>| self.is_on(name)),
                names == self.names(),
                pieces == Seq::new(names.len(), |i: int| option_piece(names, on, i)),
                line@ == pieces.take(i as int).flatten(),
                i > 0 ==> last_on == on(names[i - 1]),
            decreases self.names.len() - i,
        {
            let ghost before = line@;
            if i > 0 {
                if last_on {
                    line.append(" ");
                } else {
                    line.append(", ");
                }
            }
            let name = self.names[i].as_str();
            let is_on = match self.get(name) {
                Some(value) => *value,
                None => false,
            };
            if is_on {
                line.append("[ ");
                line.append(name);
                line.append(" ]");
            } else {
                line.append("  ");
                line.append(name);
                line.append("  ");
            }
            proof {
                assert(name@ == names[i as int]);
                assert(is_on == on(names[i as int]));
                assert(line@ =~= before + pieces[i as int]);
                assert(pieces.take(i + 1) =~= pieces.take(i as int).push(pieces[i as int]));
                pieces.take(i as int).lemma_flatten_push(pieces[i as int]);
            }
            last_on = is_on;
            i += 1;
        }
        proof {
            assert(pieces.take(i as int) =~= pieces);
        }
        line
    }
}

impl Clone for Choices {
    /// A copy with the same names and switches.
    fn clone(&self) -> (copy: Self)
        ensures
            copy.names() == self.names(),
            copy.switches() == self.switches(),
    {
        proof {
            use_type_invariant(self);
        }
        let names = self.names.clone();
        let values = self.values.clone();
        proof {
            assert forall|i: int| 0 <= i < names.len() implies (#[trigger] names@[i])@
                == self.names@[i]@ by {
                assert(cloned::<String>(self.names@[i], names@[i]));
            }
            assert(names_of(names@) =~= names_of(self.names@));
            assert forall|i: int| 0 <= i < values.len() implies #[trigger] values@[i]
                == self.values@[i] by {
                assert(cloned::<bool>(self.values@[i], values@[i]));
            }
            assert(values@ =~= self.values@);
        }
        Choices { names, values }
    }
}

/// A caption and one option that a press switches on.
#[derive(Debug)]
pub struct Button {
    text: String,
    choices: Choices,
}

impl Clone for Button {
    /// A copy with the same caption, options and switches.
    fn clone(&self) -> (copy: Self)
        ensures
            copy.text() == self.text(),
            copy.choices().names() == self.choices().names(),
            copy.choices().switches() == self.choices().switches(),
    {
        Self { text: self.text.clone(), choices: self.choices.clone() }
    }
}

impl Button {
    /// The options of the widget, with their switches.
    pub closed spec fn choices(&self) -> Choices {
        self.choices
    }

    /// A button captioned `text` with the one option `button_text`, switched off.
    pub fn new(text: &str, button_text: &str) -> (button: Self)
        ensures
            button.text() == text@,
            button.option_names() == seq![button_text@],
            forall|name: Seq<char>|
                #[trigger] button.value_of(name) == (if name == button_text@ {
                    Some(false)
                } else {
                    None
                }),
    {
        let mut options_text: Vec<String> = Vec::new();
        options_text.push(button_text.to_owned());
        let choices = Choices::new(options_text.as_slice());
        proof {
            assert(names_of(options_text@) =~= seq![button_text@]);
            assert forall|name: Seq<char>|
                names_of(options_text@).contains(name) <==> name == button_text@ by {
                if name == button_text@ {
                    assert(names_of(options_text@)[0] == name);
                }
            }
        }
        Self { text: text.to_owned(), choices }
    }
}

impl MenuObject for Button {
    closed spec fn text(&self) -> Seq<char> {
        self.text@
    }

    open spec fn menu_type(&self) -> MenuType {
        MenuType::Button
    }

    fn get_text(&self) -> (text: &str) {
        self.text.as_str()
    }

    fn get_type(&self) -> (menu_type: &MenuType) {
        &MenuType::Button
    }
}

impl Value<bool, bool> for Button {
    open spec fn value_of(&self, name: Seq<char>) -> Option<bool> {
        self.choices().value_of(name)
    }

    open spec fn option_names(&self) -> Seq<Seq<char>> {
        self.choices().names()
    }

    fn get(&self, name: &str) -> (r: Option<&bool>) {
        self.choices.get(name)
    }

    /// Switches the option `name` on or off. Refuses, and changes nothing,
    /// when there is no such option.
    fn change(&mut self, name: &str, value: bool) -> (r: Option<()>)
        ensures
            final(self).text() == old(self).text(),
            r is Some <==> old(self).value_of(name@) is Some,
            forall|other: Seq<char>|
                #[trigger] final(self).value_of(other) == (if r is Some && other == name@ {
                    Some(value)
                } else {
                    old(self).value_of(other)
                }),
    {
        self.choices.change(name, value)
    }

    fn get_options(&self) -> (names: &[String]) {
        self.choices.get_names()
    }
}

impl FormattedString for Button {
    /// The caption, a colon, the tabs, and the options as they are shown.
    open spec fn formatted(&self, number_of_tab: nat) -> Seq<char> {
        caption_and_options(
            self.text(),
            number_of_tab,
            self.option_names(),
            |name: Seq<char>| self.choices().is_on(name),
        )
    }

    fn format(&self, number_of_tab: u32) -> (line: String) {
        let mut output = String::new();
        output.append(self.get_text());
        output.append(":");
        output.append(get_tabs(number_of_tab).as_str());
        output.append(self.choices.format().as_str());
        proof {
            assert(output@ =~= self.formatted(number_of_tab as nat));
        }
        output
    }
}

/// A caption and a group of radio buttons.
#[derive(Debug)]
pub struct RadioButton {
    text: String,
    choices: Choices,
}

impl Clone for RadioButton {
    /// A copy with the same caption, options and switches.
    fn clone(&self) -> (copy: Self)
        ensures
            copy.text() == self.text(),
            copy.choices().names() == self.choices().names(),
            copy.choices().switches() == self.choices().switches(),
    {
        Self { text: self.text.clone(), choices: self.choices.clone() }
    }
}

impl RadioButton {
    /// The options of the widget, with their switches.
    pub closed spec fn choices(&self) -> Choices {
        self.choices
    }

    /// A widget captioned `text` with the options `options_text`, all switched off.
    pub fn new(text: &str, options_text: &[String]) -> (widget: Self)
        ensures
            widget.text() == text@,
            widget.option_names() == names_of(options_text@),
            forall|name: Seq<char>|
                #[trigger] widget.value_of(name) == (if names_of(options_text@).contains(name) {
                    Some(false)
                } else {
                    None
                }),
    {
        let choices = Choices::new(options_text);
        Self { text: text.to_owned(), choices }
    }
}

impl MenuObject for RadioButton {
    closed spec fn text(&self) -> Seq<char> {
        self.text@
    }

    open spec fn menu_type(&self) -> MenuType {
        MenuType::RadioButton
    }

    fn get_text(&self) -> (text: &str) {
        self.text.as_str()
    }

    fn get_type(&self) -> (menu_type: &MenuType) {
        &MenuType::RadioButton
    }
}

impl Value<bool, bool> for RadioButton {
    open spec fn value_of(&self, name: Seq<char>) -> Option<bool> {
        self.choices().value_of(name)
    }

    open spec fn option_names(&self) -> Seq<Seq<char>> {
        self.choices().names()
    }

    fn get(&self, name: &str) -> (r: Option<&bool>) {
        self.choices.get(name)
    }

    /// Switches the option `name` on or off. Refuses, and changes nothing,
    /// when there is no such option.
    fn change(&mut self, name: &str, value: bool) -> (r: Option<()>)
        ensures
            final(self).text() == old(self).text(),
            r is Some <==> old(self).value_of(name@) is Some,
            forall|other: Seq<char>|
                #[trigger] final(self).value_of(other) == (if r is Some && other == name@ {
                    Some(value)
                } else {
                    old(self).value_of(other)
                }),
    {
        self.choices.change(name, value)
    }

    fn get_options(&self) -> (names: &[String]) {
        self.choices.get_names()
    }
}

impl FormattedString for RadioButton {
    /// The caption, a colon, the tabs, and the options as they are shown.
    open spec fn formatted(&self, number_of_tab: nat) -> Seq<char> {
        caption_and_options(
            self.text(),
            number_of_tab,
            self.option_names(),
            |name: Seq<char>| self.choices().is_on(name),
        )
    }

    fn format(&self, number_of_tab: u32) -> (line: String) {
        let mut output = String::new();
        output.append(self.get_text());
        output.append(":");
        output.append(get_tabs(number_of_tab).as_str());
        output.append(self.choices.format().as_str());
        proof {
            assert(output@ =~= self.formatted(number_of_tab as nat));
        }
        output
    }
}

/// A caption and a list of options to pick from.
#[derive(Debug)]
pub struct Selection {
    text: String,
    choices: Choices,
}

impl Clone for Selection {
    /// A copy with the same caption, options and switches.
    fn clone(&self) -> (copy: Self)
        ensures
            copy.text() == self.text(),
            copy.choices().names() == self.choices().names(),
            copy.choices().switches() == self.choices().switches(),
    {
        Self { text: self.text.clone(), choices: self.choices.clone() }
    }
}

impl Selection {
    /// The options of the widget, with their switches.
    pub closed spec fn choices(&self) -> Choices {
        self.choices
    }

    /// A widget captioned `text` with the options `options_text`, all switched off.
    pub fn new(text: &str, options_text: &[String]) -> (widget: Self)
        ensures
            widget.text() == text@,
            widget.option_names() == names_of(options_text@),
            forall|name: Seq<char>|
                #[trigger] widget.value_of(name) == (if names_of(options_text@).contains(name) {
                    Some(false)
                } else {
                    None
                }),
    {
        let choices = Choices::new(options_text);
        Self { text: text.to_owned(), choices }
    }
}

impl MenuObject for Selection {
    closed spec fn text(&self) -> Seq<char> {
        self.text@
    }

    open spec fn menu_type(&self) -> MenuType {
        MenuType::Selection
    }

    fn get_text(&self) -> (text: &str) {
        self.text.as_str()
    }

    fn get_type(&self) -> (menu_type: &MenuType) {
        &MenuType::Selection
    }
}

impl Value<bool, bool> for Selection {
    open spec fn value_of(&self, name: Seq<char>) -> Option<bool> {
        self.choices().value_of(name)
    }

    open spec fn option_names(&self) -> Seq<Seq<char>> {
        self.choices().names()
    }

    fn get(&self, name: &str) -> (r: Option<&bool>) {
        self.choices.get(name)
    }

    /// Switches the option `name` on or off. Refuses, and changes nothing,
    /// when there is no such option.
    fn change(&mut self, name: &str, value: bool) -> (r: Option<()>)
        ensures
            final(self).text() == old(self).text(),
            r is Some <==> old(self).value_of(name@) is Some,
            forall|other: Seq<char>|
                #[trigger] final(self).value_of(other) == (if r is Some && other == name@ {
                    Some(value)
                } else {
                    old(self).value_of(other)
                }),
    {
        self.choices.change(name, value)
    }

    fn get_options(&self) -> (names: &[String]) {
        self.choices.get_names()
    }
}

impl FormattedString for Selection {
    /// The caption, a colon, the tabs, and the options as they are shown.
    open spec fn formatted(&self, number_of_tab: nat) -> Seq<char> {
        caption_and_options(
            self.text(),
            number_of_tab,
            self.option_names(),
            |name: Seq<char>| self.choices().is_on(name),
        )
    }

    fn format(&self, number_of_tab: u32) -> (line: String) {
        let mut output = String::new();
        output.append(self.get_text());
        output.append(":");
        output.append(get_tabs(number_of_tab).as_str());
        output.append(self.choices.format().as_str());
        proof {
            assert(output@ =~= self.formatted(number_of_tab as nat));
        }
        output
    }
}

/// A caption and a line of input under one option name. While nothing has
/// been typed the box shows a default.
#[derive(Debug)]
pub struct TextBox {
    text: String,
    input: String,
    options_text: Vec<String>,
    default_input: String,
}

impl TextBox {
    /// What every value of this type satisfies: the box has exactly one option name.
    #[verifier::type_invariant]
    pub closed spec fn wf(self) -> bool {
        self.options_text.len() == 1
    }

    /// The name under which the box holds its input.
    pub closed spec fn option_name(&self) -> Seq<char> {
        self.options_text@[0]@
    }

    /// What has been typed into the box.
    pub closed spec fn input(&self) -> Seq<char> {
        self.input@
    }

    /// What the box shows while nothing has been typed.
    pub closed spec fn default_input(&self) -> Seq<char> {
        self.default_input@
    }

    /// What the box shows: its input, or its default while the input is empty.
    pub open spec fn shown(&self) -> Seq<char> {
        if self.input().len() == 0 {
            self.default_input()
        } else {
            self.input()
        }
    }

    /// An empty box captioned `text` that holds its input under `option_text`
    /// and shows `default_input` until something is typed.
    pub fn new(text: &str, option_text: &str, default_input: &str) -> (text_box: Self)
        ensures
            text_box.wf(),
            text_box.text() == text@,
            text_box.option_name() == option_text@,
            text_box.input() == Seq::<char>::empty(),
            text_box.default_input() == default_input@,
    {
        let mut options_text: Vec<String> = Vec::new();
        options_text.push(option_text.to_owned());
        Self {
            text: text.to_owned(),
            input: String::new(),
            options_text,
            default_input: default_input.to_owned(),
        }
    }
}

impl Clone for TextBox {
    /// A copy with the same caption, option name, input and default.
    fn clone(&self) -> (copy: Self)
        ensures
            copy.text() == self.text(),
            copy.option_name() == self.option_name(),
            copy.input() == self.input(),
            copy.default_input() == self.default_input(),
    {
        proof {
            use_type_invariant(self);
        }
        let options_text = self.options_text.clone();
        proof {
            assert(cloned::<String>(self.options_text@[0], options_text@[0]));
        }
        Self {
            text: self.text.clone(),
            input: self.input.clone(),
            options_text,
            default_input: self.default_input.clone(),
        }
    }
}

impl MenuObject for TextBox {
    closed spec fn text(&self) -> Seq<char> {
        self.text@
    }

    open spec fn menu_type(&self) -> MenuType {
        MenuType::TextBox
    }

    fn get_text(&self) -> (text: &str) {
        self.text.as_str()
    }

    fn get_type(&self) -> (menu_type: &MenuType) {
        &MenuType::TextBox
    }
}

impl<'a> Value<String, &'a str> for TextBox {
    closed spec fn value_of(&self, name: Seq<char>) -> Option<String> {
        if name == self.options_text@[0]@ {
            if self.input@.len() == 0 {
                Some(self.default_input)
            } else {
                Some(self.input)
            }
        } else {
            None
        }
    }

    closed spec fn option_names(&self) -> Seq<Seq<char>> {
        names_of(self.options_text@)
    }

    /// What the box shows, when `name` is the name of its option.
    fn get(&self, name: &str) -> (r: Option<&String>)
        ensures
            r is Some <==> name@ == self.option_name(),
            r matches Some(value) ==> value@ == self.shown(),
    {
        proof {
            use_type_invariant(self);
        }
        let wanted = name.to_owned();
        if wanted == self.options_text[0] {
            if self.input.as_str().is_empty() {
                Some(&self.default_input)
            } else {
                Some(&self.input)
            }
        } else {
            None
        }
    }

    /// Replaces the input by `value`, whatever `name` is.
    fn change(&mut self, name: &str, value: &'a str) -> (r: Option<()>)
        ensures
            r is Some,
            final(self).input() == value@,
            final(self).text() == old(self).text(),
            final(self).option_name() == old(self).option_name(),
            final(self).default_input() == old(self).default_input(),
    {
        proof {
            use_type_invariant(&*self);
        }
        self.input = value.to_owned();
        Some(())
    }

    fn get_options(&self) -> (names: &[String])
        ensures
            names@.len() == 1,
            names@[0]@ == self.option_name(),
    {
        proof {
            use_type_invariant(self);
        }
        self.options_text.as_slice()
    }
}

impl FormattedString for TextBox {
    /// The caption, the tabs, and what the box shows.
    open spec fn formatted(&self, number_of_tab: nat) -> Seq<char> {
        self.text() + tabs(number_of_tab) + self.shown()
    }

    fn format(&self, number_of_tab: u32) -> (line: String) {
        let input = if self.input.as_str().is_empty() {
            &self.default_input
        } else {
            &self.input
        };
        let mut output = String::new();
        output.append(self.get_text());
        output.append(get_tabs(number_of_tab).as_str());
        output.append(input.as_str());
        proof {
            assert(output@ =~= self.formatted(number_of_tab as nat));
        }
        output
    }
}

} // verus!
