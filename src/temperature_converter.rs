use vstd::prelude::*;

verus! {

/// Events of the converter: the text of one field was edited.
#[derive(Debug, Clone)]
pub enum Message {
    CelsiusChanged(String),
    FahrenheitChanged(String),
}

/// Two linked text fields, one in degrees Celsius and one in degrees
/// Fahrenheit. An edit of one field sets the other to the converted value.
#[derive(Debug, Clone)]
pub struct TemperatureConverter {
    pub celsius: String,
    pub fahrenheit: String,
}

impl TemperatureConverter {
    /// Both fields empty.
    pub fn new() -> (r: TemperatureConverter)
        ensures
            r.celsius@.len() == 0,
            r.fahrenheit@.len() == 0,
    {
        TemperatureConverter { celsius: String::new(), fahrenheit: String::new() }
    }

    /// The title of the window.
    pub fn title(&self) -> (r: String)
        ensures
            r@ == "Temperature Converter"@,
    {
        String::from_str("Temperature Converter")
    }

    /// Clears both fields.
    pub fn empty(&mut self)
        ensures
            final(self).celsius@.len() == 0,
            final(self).fahrenheit@.len() == 0,
    {
        self.celsius = String::new();
        self.fahrenheit = String::new();
    }

    /// Applies one edit.
    ///
    /// `converted` is the edited text read as a number and written in the
    /// other scale, or `None` when the text is not a number. An empty text
    /// and a text that is not a number clear both fields; otherwise the
    /// edited field takes the text and the other field the converted value.
    pub fn update(&mut self, message: Message, converted: Option<String>)
        ensures
            match message {
                Message::CelsiusChanged(s) => if s@.len() == 0 || converted is None {
                    final(self).celsius@.len() == 0 && final(self).fahrenheit@.len() == 0
                } else {
                    final(self).celsius == s && final(self).fahrenheit == converted->0
                },
                Message::FahrenheitChanged(s) => if s@.len() == 0 || converted is None {
                    final(self).celsius@.len() == 0 && final(self).fahrenheit@.len() == 0
                } else {
                    final(self).fahrenheit == s && final(self).celsius == converted->0
                },
            },
    {
        match message {
            Message::CelsiusChanged(s) => {
                if s.as_str().is_empty() {
                    self.empty();
                } else {
                    match converted {
                        Some(fahrenheit) => {
                            self.celsius = s;
                            self.fahrenheit = fahrenheit;
                        },
                        None => self.empty(),
                    }
                }
            },
            Message::FahrenheitChanged(s) => {
                if s.as_str().is_empty() {
                    self.empty();
                } else {
                    match converted {
                        Some(celsius) => {
                            self.fahrenheit = s;
                            self.celsius = celsius;
                        },
                        None => self.empty(),
                    }
                }
            },
        }
    }
}

} // verus!
